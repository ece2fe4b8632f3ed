//! Expression trees.

use vstd::prelude::*;
use std::rc::Rc;
use crate::object::{Object, ObjectView};
use crate::token::{Token, TokenView};

verus! {

/// An expression together with the number that identifies it. The resolver
/// files the scope distance of a variable reference under this number.
#[derive(Debug, Clone)]
pub struct HashExpr {
    pub id: usize,
    pub expr: Expr,
}

/// The kinds of expression.
#[derive(Debug, Clone)]
pub enum Expr {
    Binary(BinaryExpr),
    Grouping(GroupingExpr),
    Literal(LiteralExpr),
    Unary(UnaryExpr),
    Variable(VariableExpr),
    Assign(AssignExpr),
    Logical(LogicalExpr),
    Call(CallExpr),
    Get(GetExpr),
    SetField(SetExpr),
    This(ThisExpr),
    Super(SuperExpr),
}

/// `left op right` for arithmetic, comparison and equality.
#[derive(Debug, Clone)]
pub struct BinaryExpr {
    pub left: Rc<HashExpr>,
    pub op: Rc<Token>,
    pub right: Rc<HashExpr>,
}

/// `( expression )`.
#[derive(Debug, Clone)]
pub struct GroupingExpr {
    pub expression: Rc<HashExpr>,
}

/// A value written in the source: `nil`, `true`, `false`, a number or a
/// string.
#[derive(Debug, Clone)]
pub struct LiteralExpr {
    pub value: Object,
}

/// `-right` or `!right`.
#[derive(Debug, Clone)]
pub struct UnaryExpr {
    pub op: Rc<Token>,
    pub right: Rc<HashExpr>,
}

/// The use of a name.
#[derive(Debug, Clone)]
pub struct VariableExpr {
    pub name: Rc<Token>,
}

/// `name = value`.
#[derive(Debug, Clone)]
pub struct AssignExpr {
    pub name: Rc<Token>,
    pub value: Rc<HashExpr>,
}

/// `left and right` or `left or right`.
#[derive(Debug, Clone)]
pub struct LogicalExpr {
    pub left: Rc<HashExpr>,
    pub op: Rc<Token>,
    pub right: Rc<HashExpr>,
}

/// `callee(arguments)`. The closing parenthesis stands for the call in
/// errors.
#[derive(Debug, Clone)]
pub struct CallExpr {
    pub callee: Rc<HashExpr>,
    pub paren: Rc<Token>,
    pub arguments: Rc<Vec<Rc<HashExpr>>>,
}

/// `object.name`.
#[derive(Debug, Clone)]
pub struct GetExpr {
    pub object: Rc<HashExpr>,
    pub name: Rc<Token>,
}

/// `object.name = value`.
#[derive(Debug, Clone)]
pub struct SetExpr {
    pub object: Rc<HashExpr>,
    pub name: Rc<Token>,
    pub value: Rc<HashExpr>,
}

/// `this`.
#[derive(Debug, Clone)]
pub struct ThisExpr {
    pub keyword: Rc<Token>,
}

/// `super.method`.
#[derive(Debug, Clone)]
pub struct SuperExpr {
    pub keyword: Rc<Token>,
    pub method: Rc<Token>,
}

/// What a [`HashExpr`] stands for.
pub struct HashExprView {
    pub id: usize,
    pub expr: ExprView,
}

/// What an [`Expr`] stands for.
pub enum ExprView {
    Binary { left: Box<HashExprView>, op: TokenView, right: Box<HashExprView> },
    Grouping { expression: Box<HashExprView> },
    Literal { value: ObjectView },
    Unary { op: TokenView, right: Box<HashExprView> },
    Variable { name: TokenView },
    Assign { name: TokenView, value: Box<HashExprView> },
    Logical { left: Box<HashExprView>, op: TokenView, right: Box<HashExprView> },
    Call { callee: Box<HashExprView>, paren: TokenView, arguments: Seq<HashExprView> },
    Get { object: Box<HashExprView>, name: TokenView },
    SetField { object: Box<HashExprView>, name: TokenView, value: Box<HashExprView> },
    This { keyword: TokenView },
    Super { keyword: TokenView, method: TokenView },
}

/// The tree that an expression stands for.
pub open spec fn expr_view(e: HashExpr) -> HashExprView
    decreases e,
{
    HashExprView {
        id: e.id,
        expr: match e.expr {
            Expr::Binary(b) => ExprView::Binary {
                left: Box::new(expr_view(*b.left)),
                op: b.op.deep_view(),
                right: Box::new(expr_view(*b.right)),
            },
            Expr::Grouping(g) => ExprView::Grouping {
                expression: Box::new(expr_view(*g.expression)),
            },
            Expr::Literal(l) => ExprView::Literal { value: l.value.deep_view() },
            Expr::Unary(u) => ExprView::Unary {
                op: u.op.deep_view(),
                right: Box::new(expr_view(*u.right)),
            },
            Expr::Variable(v) => ExprView::Variable { name: v.name.deep_view() },
            Expr::Assign(a) => ExprView::Assign {
                name: a.name.deep_view(),
                value: Box::new(expr_view(*a.value)),
            },
            Expr::Logical(b) => ExprView::Logical {
                left: Box::new(expr_view(*b.left)),
                op: b.op.deep_view(),
                right: Box::new(expr_view(*b.right)),
            },
            Expr::Call(c) => ExprView::Call {
                callee: Box::new(expr_view(*c.callee)),
                paren: c.paren.deep_view(),
                arguments: Seq::new(
                    c.arguments@.len(),
                    |i: int|
                        if 0 <= i < c.arguments@.len() {
                            expr_view(*c.arguments@[i])
                        } else {
                            arbitrary()
                        },
                ),
            },
            Expr::Get(g) => ExprView::Get {
                object: Box::new(expr_view(*g.object)),
                name: g.name.deep_view(),
            },
            Expr::SetField(s) => ExprView::SetField {
                object: Box::new(expr_view(*s.object)),
                name: s.name.deep_view(),
                value: Box::new(expr_view(*s.value)),
            },
            Expr::This(t) => ExprView::This { keyword: t.keyword.deep_view() },
            Expr::Super(s) => ExprView::Super {
                keyword: s.keyword.deep_view(),
                method: s.method.deep_view(),
            },
        },
    }
}

/// The trees that a list of expressions stands for.
pub open spec fn exprs_view(es: Seq<Rc<HashExpr>>) -> Seq<HashExprView> {
    Seq::new(es.len(), |i: int| expr_view(*es[i]))
}

/// What a call stands for, with its arguments as a list of trees.
pub proof fn lemma_call_view(e: &HashExpr)
    requires
        e.expr is Call,
    ensures
        expr_view(*e) == (HashExprView {
            id: e.id,
            expr: ExprView::Call {
                callee: Box::new(expr_view(*e.expr->Call_0.callee)),
                paren: e.expr->Call_0.paren.deep_view(),
                arguments: exprs_view(e.expr->Call_0.arguments@),
            },
        }),
{
    assert(expr_view(*e).expr->Call_arguments =~= exprs_view(e.expr->Call_0.arguments@));
}

/// The trees of a list that has grown by one expression.
pub proof fn lemma_exprs_view_push(es: Seq<Rc<HashExpr>>, e: Rc<HashExpr>)
    ensures
        exprs_view(es.push(e)) == exprs_view(es).push(expr_view(*e)),
{
    assert(exprs_view(es.push(e)) =~= exprs_view(es).push(expr_view(*e)));
}

/// The trees of no expressions.
pub proof fn lemma_exprs_view_empty()
    ensures
        exprs_view(Seq::<Rc<HashExpr>>::empty()) == Seq::<HashExprView>::empty(),
{
    assert(exprs_view(Seq::<Rc<HashExpr>>::empty()) =~= Seq::<HashExprView>::empty());
}

impl DeepView for HashExpr {
    type V = HashExprView;

    open spec fn deep_view(&self) -> HashExprView {
        expr_view(*self)
    }
}

impl HashExpr {
    pub fn new(id: usize, expr: Expr) -> (r: HashExpr)
        ensures
            r.id == id,
            r.expr == expr,
    {
        HashExpr { id, expr }
    }
}

impl BinaryExpr {
    pub fn new(left: Rc<HashExpr>, op: Rc<Token>, right: Rc<HashExpr>) -> (r: BinaryExpr)
        ensures
            r.left == left,
            r.op == op,
            r.right == right,
    {
        BinaryExpr { left, op, right }
    }
}

impl GroupingExpr {
    pub fn new(expression: Rc<HashExpr>) -> (r: GroupingExpr)
        ensures
            r.expression == expression,
    {
        GroupingExpr { expression }
    }
}

impl LiteralExpr {
    pub fn new(value: Object) -> (r: LiteralExpr)
        ensures
            r.value == value,
    {
        LiteralExpr { value }
    }
}

impl UnaryExpr {
    pub fn new(op: Rc<Token>, right: Rc<HashExpr>) -> (r: UnaryExpr)
        ensures
            r.op == op,
            r.right == right,
    {
        UnaryExpr { op, right }
    }
}

impl VariableExpr {
    pub fn new(name: Rc<Token>) -> (r: VariableExpr)
        ensures
            r.name == name,
    {
        VariableExpr { name }
    }
}

impl AssignExpr {
    pub fn new(name: Rc<Token>, value: Rc<HashExpr>) -> (r: AssignExpr)
        ensures
            r.name == name,
            r.value == value,
    {
        AssignExpr { name, value }
    }
}

impl LogicalExpr {
    pub fn new(left: Rc<HashExpr>, op: Rc<Token>, right: Rc<HashExpr>) -> (r: LogicalExpr)
        ensures
            r.left == left,
            r.op == op,
            r.right == right,
    {
        LogicalExpr { left, op, right }
    }
}

impl CallExpr {
    pub fn new(callee: Rc<HashExpr>, paren: Rc<Token>, arguments: Vec<Rc<HashExpr>>) -> (r:
        CallExpr)
        ensures
            r.callee == callee,
            r.paren == paren,
            *r.arguments == arguments,
    {
        CallExpr { callee, paren, arguments: Rc::new(arguments) }
    }
}

impl GetExpr {
    pub fn new(object: Rc<HashExpr>, name: Rc<Token>) -> (r: GetExpr)
        ensures
            r.object == object,
            r.name == name,
    {
        GetExpr { object, name }
    }
}

impl SetExpr {
    pub fn new(object: Rc<HashExpr>, name: Rc<Token>, value: Rc<HashExpr>) -> (r: SetExpr)
        ensures
            r.object == object,
            r.name == name,
            r.value == value,
    {
        SetExpr { object, name, value }
    }
}

impl ThisExpr {
    pub fn new(keyword: Rc<Token>) -> (r: ThisExpr)
        ensures
            r.keyword == keyword,
    {
        ThisExpr { keyword }
    }
}

impl SuperExpr {
    pub fn new(keyword: Rc<Token>, method: Rc<Token>) -> (r: SuperExpr)
        ensures
            r.keyword == keyword,
            r.method == method,
    {
        SuperExpr { keyword, method }
    }
}

/// Whether `number` writes every number in one way only.
pub open spec fn writes_one_way<F: Fn(u64) -> String>(number: &F) -> bool {
    forall|n: u64, s: String, t: String|
        #![trigger number.ensures((n,), s), number.ensures((n,), t)]
        number.ensures((n,), s) && number.ensures((n,), t) ==> s@ == t@
}

/// What `number` writes for `n`.
pub open spec fn numeral<F: Fn(u64) -> String>(number: &F, n: u64) -> Seq<char> {
    (choose|s: String| number.ensures((n,), s))@
}

/// The expression written with parentheses around every operation and the
/// operator in front, as in `(* (- 123) (45.67))`, with `number` writing the
/// numbers. Expressions other than operations with one or two operands,
/// groupings and literals of the source are written as nothing.
pub open spec fn written<F: Fn(u64) -> String>(number: &F, e: HashExpr) -> Seq<char>
    decreases e,
{
    match e.expr {
        Expr::Binary(binary) => "("@ + binary.op.lexeme@ + " "@ + written(number, *binary.left)
            + " "@ + written(number, *binary.right) + ")"@,
        Expr::Grouping(grouping) => "("@ + written(number, *grouping.expression) + ")"@,
        Expr::Literal(literal) => match literal.value {
            Object::Nil => "nil"@,
            Object::Boolean(b) => if b {
                "true"@
            } else {
                "false"@
            },
            Object::Number(n) => numeral(number, n),
            Object::String(s) => s@,
            _ => Seq::<char>::empty(),
        },
        Expr::Unary(unary) => "("@ + unary.op.lexeme@ + " "@ + written(number, *unary.right)
            + ")"@,
        _ => Seq::<char>::empty(),
    }
}

impl HashExpr {
    /// Writes the expression with parentheses around every operation.
    pub fn to_string<F: Fn(u64) -> String>(&self, number: &F) -> (r: String)
        requires
            forall|n: u64| number.requires((n,)),
            writes_one_way(number),
        ensures
            r@ == written(number, *self),
        decreases self,
    {
        match &self.expr {
            Expr::Binary(binary) => {
                let left = binary.left.to_string(number);
                let right = binary.right.to_string(number);
                String::from_str("(").concat(binary.op.lexeme.as_str()).concat(" ").concat(
                    left.as_str(),
                ).concat(" ").concat(right.as_str()).concat(")")
            },
            Expr::Grouping(grouping) => {
                let inner = grouping.expression.to_string(number);
                String::from_str("(").concat(inner.as_str()).concat(")")
            },
            Expr::Literal(literal) => match &literal.value {
                Object::Nil => String::from_str("nil"),
                Object::Boolean(b) => if *b {
                    String::from_str("true")
                } else {
                    String::from_str("false")
                },
                Object::Number(n) => {
                    let r = number(*n);
                    assert(number.ensures((*n,), choose|s: String| number.ensures((*n,), s)));
                    r
                },
                Object::String(s) => s.clone(),
                _ => String::new(),
            },
            Expr::Unary(unary) => {
                let right = unary.right.to_string(number);
                String::from_str("(").concat(unary.op.lexeme.as_str()).concat(" ").concat(
                    right.as_str(),
                ).concat(")")
            },
            _ => String::new(),
        }
    }
}

} // verus!
