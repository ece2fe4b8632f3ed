//! The parser: from tokens to statements, by recursive descent.
//!
//! The grammar is written down twice. The functions on sequences of tokens
//! say what each rule yields and where it stops; the methods of [`Parser`]
//! do the work and are proved to yield the same.

use vstd::prelude::*;
use std::rc::Rc;
use crate::expr::{
    expr_view,
    exprs_view,
    lemma_call_view,
    lemma_exprs_view_empty,
    lemma_exprs_view_push,
    AssignExpr,
    BinaryExpr,
    CallExpr,
    Expr,
    ExprView,
    GetExpr,
    GroupingExpr,
    HashExpr,
    HashExprView,
    LiteralExpr,
    LogicalExpr,
    SetExpr,
    SuperExpr,
    ThisExpr,
    UnaryExpr,
    VariableExpr,
};
use crate::message::{report, reported};
use crate::object::{Object, ObjectView};
use crate::stmt::{
    function_view,
    functions_view,
    lemma_function_view,
    lemma_functions_view_empty,
    lemma_functions_view_push,
    lemma_stmt_view,
    lemma_stmts_view_empty,
    lemma_stmts_view_push,
    lemma_tokens_view_empty,
    lemma_tokens_view_push,
    optional_expr_view,
    stmt_view,
    stmts_view,
    tokens_view,
    BlockStmt,
    ClassStmt,
    ExpressionStmt,
    FunctionStmt,
    FunctionStmtView,
    IfStmt,
    PrintStmt,
    ReturnStmt,
    Stmt,
    StmtView,
    VarStmt,
    WhileStmt,
};
use crate::token::{Token, TokenType, TokenView};

verus! {

/// What the parser found wrong.
#[derive(Debug, Clone, Copy, PartialEq, Eq, Structural)]
pub enum Message {
    ExpectFunctionName,
    ExpectMethodName,
    ExpectParenAfterFunctionName,
    ExpectParenAfterMethodName,
    ExpectParameterName,
    ExpectParenAfterParameters,
    ExpectBraceBeforeFunctionBody,
    ExpectBraceBeforeMethodBody,
    ExpectClassName,
    ExpectSuperclassName,
    ExpectBraceBeforeClassBody,
    ExpectBraceAfterClassBody,
    ExpectVariableName,
    ExpectSemicolonAfterVariable,
    ExpectBraceAfterBlock,
    ExpectParenAfterFor,
    ExpectSemicolonAfterLoopCondition,
    ExpectParenAfterForClauses,
    ExpectParenAfterWhile,
    ExpectParenAfterWhileCondition,
    ExpectSemicolonAfterReturn,
    ExpectParenAfterIf,
    ExpectParenAfterIfCondition,
    ExpectSemicolonAfterValue,
    ExpectSemicolonAfterExpression,
    ExpectPropertyName,
    ExpectParenAfterArguments,
    ExpectParenAfterExpression,
    ExpectDotAfterSuper,
    ExpectSuperclassMethodName,
    TooManyArguments,
    TooManyParameters,
    InvalidAssignmentTarget,
    UnexpectedToken,
}

/// An error of the parser: what is wrong, and the line and text of the
/// token at which it was noticed.
#[derive(Debug, Clone)]
pub struct ParseError {
    pub message: Message,
    pub line: usize,
    pub lexeme: String,
}

/// What a [`ParseError`] stands for.
pub struct ParseErrorView {
    pub message: Message,
    pub line: usize,
    pub lexeme: Seq<char>,
}

impl DeepView for ParseError {
    type V = ParseErrorView;

    open spec fn deep_view(&self) -> ParseErrorView {
        ParseErrorView { message: self.message, line: self.line, lexeme: self.lexeme@ }
    }
}

/// The most parameters that a function, and arguments that a call, can have.
pub const PARAM_MAX_COUNT: usize = 255;

/// What a rule yields: a value, the place of the first token after it and
/// the number that the next expression gets.
pub struct Parsed<T> {
    pub value: T,
    pub pos: int,
    pub id: usize,
}

/// Which kind of function a declaration is, for the wording of errors.
#[derive(Debug, Clone, Copy, PartialEq, Eq, Structural)]
pub enum FunctionKind {
    Function,
    Method,
}

/// The token at `pos`, if there is one.
pub open spec fn peek(tokens: Seq<TokenView>, pos: int) -> Option<TokenView> {
    if 0 <= pos < tokens.len() {
        Some(tokens[pos])
    } else {
        None
    }
}

/// Whether the token at `pos` is of the given kind.
pub open spec fn check(tokens: Seq<TokenView>, pos: int, kind: TokenType) -> bool {
    0 <= pos < tokens.len() && tokens[pos].token_type == kind
}

/// Whether nothing but the end of the text is left at `pos`.
pub open spec fn is_at_end(tokens: Seq<TokenView>, pos: int) -> bool {
    !(0 <= pos < tokens.len()) || tokens[pos].token_type == TokenType::Eof
}

/// The error with the given message at the token at `pos`.
pub open spec fn problem(message: Message, tokens: Seq<TokenView>, pos: int) -> ParseErrorView {
    if 0 <= pos < tokens.len() {
        ParseErrorView { message, line: tokens[pos].line, lexeme: tokens[pos].lexeme }
    } else {
        ParseErrorView { message, line: 0, lexeme: Seq::empty() }
    }
}

/// Steps over the token at `pos` if it is of the given kind.
pub open spec fn consume(tokens: Seq<TokenView>, pos: int, kind: TokenType, message: Message)
    -> Result<int, ParseErrorView> {
    if check(tokens, pos, kind) {
        Ok(pos + 1)
    } else {
        Err(problem(message, tokens, pos))
    }
}

/// The number after `id`. The count stops at the largest number there is.
pub open spec fn next_id(id: usize) -> usize {
    if id < usize::MAX {
        (id + 1) as usize
    } else {
        id
    }
}

/// `next`, or `pos` if `next` lay before it. No rule ever stops before the
/// place where it started (see `lemma_expression_moves` and the lemmas beside
/// it), so this is always `next`; written this way, the definitions of the
/// rules plainly come to an end.
pub open spec fn forward(pos: int, next: int) -> int {
    if next >= pos {
        next
    } else {
        pos
    }
}

/// `next`, or the place after `pos` if `next` did not lie after it. A rule
/// that yields something always stops after the place where it started, so
/// this is always `next`.
pub open spec fn advance(pos: int, next: int) -> int {
    if next > pos {
        next
    } else {
        pos + 1
    }
}

/// How many tokens are left from `pos` on: what gets smaller as the parser
/// moves on.
pub open spec fn remaining(tokens: Seq<TokenView>, pos: int) -> nat {
    if pos < 0 {
        tokens.len() + 1
    } else if pos <= tokens.len() {
        (tokens.len() - pos) as nat
    } else {
        0
    }
}

/// The expression with the number `id`.
pub open spec fn node(id: usize, expr: ExprView) -> HashExprView {
    HashExprView { id, expr }
}

/// The levels of operators with two operands, from the one that binds
/// least: `or`, `and`, equality, comparison, terms and factors.
pub const OR: u8 = 6;

/// The level of `and`.
pub const AND: u8 = 5;

/// The level of `==` and `!=`.
pub const EQUALITY: u8 = 4;

/// The level of `<`, `<=`, `>` and `>=`.
pub const COMPARISON: u8 = 3;

/// The level of `+` and `-`.
pub const TERM: u8 = 2;

/// The level of `*` and `/`.
pub const FACTOR: u8 = 1;

/// Whether the kind of token is an operator of the level.
pub open spec fn is_operator(kind: TokenType, level: u8) -> bool {
    if level == OR {
        kind == TokenType::Or
    } else if level == AND {
        kind == TokenType::And
    } else if level == EQUALITY {
        kind == TokenType::BangEqual || kind == TokenType::EqualEqual
    } else if level == COMPARISON {
        kind == TokenType::Greater || kind == TokenType::GreaterEqual || kind == TokenType::Less
            || kind == TokenType::LessEqual
    } else if level == TERM {
        kind == TokenType::Minus || kind == TokenType::Plus
    } else if level == FACTOR {
        kind == TokenType::Slash || kind == TokenType::Star
    } else {
        false
    }
}

/// The expression that an operator of the level makes of its operands.
pub open spec fn combined(level: u8, left: HashExprView, op: TokenView, right: HashExprView)
    -> ExprView {
    if level >= AND {
        ExprView::Logical { left: Box::new(left), op, right: Box::new(right) }
    } else {
        ExprView::Binary { left: Box::new(left), op, right: Box::new(right) }
    }
}

/// primary → "true" | "false" | "nil" | "this" | NUMBER | STRING | IDENT
///         | "(" expression ")" | "super" "." IDENT
pub open spec fn primary(tokens: Seq<TokenView>, pos: int, id: usize) -> Result<
    Parsed<HashExprView>,
    ParseErrorView,
>
    decreases remaining(tokens, pos), 0nat,
{
    match peek(tokens, pos) {
        None => Err(problem(Message::UnexpectedToken, tokens, pos)),
        Some(token) => match token.token_type {
            TokenType::This => Ok(
                Parsed {
                    value: node(id, ExprView::This { keyword: token }),
                    pos: pos + 1,
                    id: next_id(id),
                },
            ),
            TokenType::False => Ok(
                Parsed {
                    value: node(id, ExprView::Literal { value: ObjectView::Boolean(false) }),
                    pos: pos + 1,
                    id: next_id(id),
                },
            ),
            TokenType::True => Ok(
                Parsed {
                    value: node(id, ExprView::Literal { value: ObjectView::Boolean(true) }),
                    pos: pos + 1,
                    id: next_id(id),
                },
            ),
            TokenType::Nil => Ok(
                Parsed {
                    value: node(id, ExprView::Literal { value: ObjectView::Nil }),
                    pos: pos + 1,
                    id: next_id(id),
                },
            ),
            TokenType::Number | TokenType::String => Ok(
                Parsed {
                    value: node(id, ExprView::Literal { value: token.literal }),
                    pos: pos + 1,
                    id: next_id(id),
                },
            ),
            TokenType::Identifier => Ok(
                Parsed {
                    value: node(id, ExprView::Variable { name: token }),
                    pos: pos + 1,
                    id: next_id(id),
                },
            ),
            TokenType::LeftParen => match expression(tokens, pos + 1, id) {
                Ok(inner) => match consume(
                    tokens,
                    inner.pos,
                    TokenType::RightParen,
                    Message::ExpectParenAfterExpression,
                ) {
                    Ok(after) => Ok(
                        Parsed {
                            value: node(
                                inner.id,
                                ExprView::Grouping { expression: Box::new(inner.value) },
                            ),
                            pos: after,
                            id: next_id(inner.id),
                        },
                    ),
                    Err(error) => Err(error),
                },
                Err(error) => Err(error),
            },
            TokenType::Super => match consume(
                tokens,
                pos + 1,
                TokenType::Dot,
                Message::ExpectDotAfterSuper,
            ) {
                Ok(_) => match consume(
                    tokens,
                    pos + 2,
                    TokenType::Identifier,
                    Message::ExpectSuperclassMethodName,
                ) {
                    Ok(_) => Ok(
                        Parsed {
                            value: node(
                                id,
                                ExprView::Super { keyword: token, method: tokens[pos + 2] },
                            ),
                            pos: pos + 3,
                            id: next_id(id),
                        },
                    ),
                    Err(error) => Err(error),
                },
                Err(error) => Err(error),
            },
            _ => Err(problem(Message::UnexpectedToken, tokens, pos)),
        },
    }
}

/// The arguments of a call from `pos` on, after those in `arguments`, up to
/// but not including the closing parenthesis.
pub open spec fn arguments_rest(
    tokens: Seq<TokenView>,
    pos: int,
    id: usize,
    arguments: Seq<HashExprView>,
) -> Result<Parsed<Seq<HashExprView>>, ParseErrorView>
    decreases remaining(tokens, pos), 30nat,
{
    if arguments.len() >= PARAM_MAX_COUNT {
        Err(problem(Message::TooManyArguments, tokens, pos - 1))
    } else {
        match expression(tokens, pos, id) {
            Ok(argument) => {
                let next = forward(pos, argument.pos);
                if check(tokens, next, TokenType::Comma) {
                    arguments_rest(
                        tokens,
                        next + 1,
                        argument.id,
                        arguments.push(argument.value),
                    )
                } else {
                    Ok(
                        Parsed {
                            value: arguments.push(argument.value),
                            pos: next,
                            id: argument.id,
                        },
                    )
                }
            },
            Err(error) => Err(error),
        }
    }
}

/// The rest of a call whose opening parenthesis has been read.
pub open spec fn finish_call(tokens: Seq<TokenView>, pos: int, id: usize, callee: HashExprView)
    -> Result<Parsed<HashExprView>, ParseErrorView>
    decreases remaining(tokens, pos), 31nat,
{
    let arguments = if check(tokens, pos, TokenType::RightParen) {
        Ok(Parsed { value: Seq::<HashExprView>::empty(), pos, id })
    } else {
        arguments_rest(tokens, pos, id, Seq::empty())
    };
    match arguments {
        Ok(arguments) => match consume(
            tokens,
            arguments.pos,
            TokenType::RightParen,
            Message::ExpectParenAfterArguments,
        ) {
            Ok(after) => Ok(
                Parsed {
                    value: node(
                        arguments.id,
                        ExprView::Call {
                            callee: Box::new(callee),
                            paren: tokens[arguments.pos],
                            arguments: arguments.value,
                        },
                    ),
                    pos: after,
                    id: next_id(arguments.id),
                },
            ),
            Err(error) => Err(error),
        },
        Err(error) => Err(error),
    }
}

/// The calls and property reads that follow an expression.
pub open spec fn call_rest(tokens: Seq<TokenView>, pos: int, id: usize, callee: HashExprView)
    -> Result<Parsed<HashExprView>, ParseErrorView>
    decreases remaining(tokens, pos), 1nat,
{
    if check(tokens, pos, TokenType::LeftParen) {
        match finish_call(tokens, pos + 1, id, callee) {
            Ok(call) => call_rest(tokens, forward(pos + 1, call.pos), call.id, call.value),
            Err(error) => Err(error),
        }
    } else if check(tokens, pos, TokenType::Dot) {
        match consume(tokens, pos + 1, TokenType::Identifier, Message::ExpectPropertyName) {
            Ok(after) => call_rest(
                tokens,
                after,
                next_id(id),
                node(id, ExprView::Get { object: Box::new(callee), name: tokens[pos + 1] }),
            ),
            Err(error) => Err(error),
        }
    } else {
        Ok(Parsed { value: callee, pos, id })
    }
}

/// call → primary ( "(" arguments? ")" | "." IDENT )*
pub open spec fn call(tokens: Seq<TokenView>, pos: int, id: usize) -> Result<
    Parsed<HashExprView>,
    ParseErrorView,
>
    decreases remaining(tokens, pos), 2nat,
{
    match primary(tokens, pos, id) {
        Ok(callee) => call_rest(tokens, forward(pos, callee.pos), callee.id, callee.value),
        Err(error) => Err(error),
    }
}

/// unary → ( "!" | "-" ) unary | call
pub open spec fn unary(tokens: Seq<TokenView>, pos: int, id: usize) -> Result<
    Parsed<HashExprView>,
    ParseErrorView,
>
    decreases remaining(tokens, pos), 3nat,
{
    if check(tokens, pos, TokenType::Bang) || check(tokens, pos, TokenType::Minus) {
        match unary(tokens, pos + 1, id) {
            Ok(right) => Ok(
                Parsed {
                    value: node(
                        right.id,
                        ExprView::Unary { op: tokens[pos], right: Box::new(right.value) },
                    ),
                    pos: right.pos,
                    id: next_id(right.id),
                },
            ),
            Err(error) => Err(error),
        }
    } else {
        call(tokens, pos, id)
    }
}

/// An operand of an operator of the level: an expression of the next
/// level, or a unary one below the factors.
pub open spec fn operand(tokens: Seq<TokenView>, pos: int, id: usize, level: u8) -> Result<
    Parsed<HashExprView>,
    ParseErrorView,
>
    decreases remaining(tokens, pos), 3 * (level as nat) + 5,
{
    if level <= FACTOR {
        unary(tokens, pos, id)
    } else {
        infix(tokens, pos, id, (level - 1) as u8)
    }
}

/// The operators of the level, each with its right operand, that follow
/// the expression `left`. They group to the left.
pub open spec fn infix_rest(
    tokens: Seq<TokenView>,
    pos: int,
    id: usize,
    level: u8,
    left: HashExprView,
) -> Result<Parsed<HashExprView>, ParseErrorView>
    decreases remaining(tokens, pos), 3 * (level as nat) + 4,
{
    if 0 <= pos < tokens.len() && is_operator(tokens[pos].token_type, level) {
        match operand(tokens, pos + 1, id, level) {
            Ok(right) => infix_rest(
                tokens,
                forward(pos + 1, right.pos),
                next_id(right.id),
                level,
                node(right.id, combined(level, left, tokens[pos], right.value)),
            ),
            Err(error) => Err(error),
        }
    } else {
        Ok(Parsed { value: left, pos, id })
    }
}

/// An expression of the level: operands joined by operators of the level.
pub open spec fn infix(tokens: Seq<TokenView>, pos: int, id: usize, level: u8) -> Result<
    Parsed<HashExprView>,
    ParseErrorView,
>
    decreases remaining(tokens, pos), 3 * (level as nat) + 6,
{
    match operand(tokens, pos, id, level) {
        Ok(left) => infix_rest(tokens, forward(pos, left.pos), left.id, level, left.value),
        Err(error) => Err(error),
    }
}

/// assignment → ( call "." )? IDENT "=" assignment | logic_or
///
/// The left side is parsed as an expression first and then has to turn out
/// to be a variable or a property.
pub open spec fn assignment(tokens: Seq<TokenView>, pos: int, id: usize) -> Result<
    Parsed<HashExprView>,
    ParseErrorView,
>
    decreases remaining(tokens, pos), 25nat,
{
    match infix(tokens, pos, id, OR) {
        Ok(target) => if check(tokens, forward(pos, target.pos), TokenType::Equal) {
            match assignment(tokens, forward(pos, target.pos) + 1, target.id) {
                Ok(value) => match target.value.expr {
                    ExprView::Get { object, name } => Ok(
                        Parsed {
                            value: node(
                                value.id,
                                ExprView::SetField { object, name, value: Box::new(value.value) },
                            ),
                            pos: value.pos,
                            id: next_id(value.id),
                        },
                    ),
                    ExprView::Variable { name } => Ok(
                        Parsed {
                            value: node(
                                value.id,
                                ExprView::Assign { name, value: Box::new(value.value) },
                            ),
                            pos: value.pos,
                            id: next_id(value.id),
                        },
                    ),
                    _ => Err(
                        problem(Message::InvalidAssignmentTarget, tokens, forward(pos, target.pos)),
                    ),
                },
                Err(error) => Err(error),
            }
        } else {
            Ok(target)
        },
        Err(error) => Err(error),
    }
}

/// expression → assignment
pub open spec fn expression(tokens: Seq<TokenView>, pos: int, id: usize) -> Result<
    Parsed<HashExprView>,
    ParseErrorView,
>
    decreases remaining(tokens, pos), 26nat,
{
    assignment(tokens, pos, id)
}

/// An expression, unless the token at `pos` is of the kind `until`.
pub open spec fn optional_expression(tokens: Seq<TokenView>, pos: int, id: usize, until: TokenType)
    -> Result<Parsed<Option<HashExprView>>, ParseErrorView>
    decreases remaining(tokens, pos), 39nat,
{
    if check(tokens, pos, until) {
        Ok(Parsed { value: None, pos, id })
    } else {
        match expression(tokens, pos, id) {
            Ok(e) => Ok(Parsed { value: Some(e.value), pos: forward(pos, e.pos), id: e.id }),
            Err(error) => Err(error),
        }
    }
}

/// exprStmt → expression ";"
pub open spec fn expression_statement(tokens: Seq<TokenView>, pos: int, id: usize) -> Result<
    Parsed<StmtView>,
    ParseErrorView,
>
    decreases remaining(tokens, pos), 40nat,
{
    match expression(tokens, pos, id) {
        Ok(e) => match consume(
            tokens,
            forward(pos, e.pos),
            TokenType::Semicolon,
            Message::ExpectSemicolonAfterExpression,
        ) {
            Ok(after) => Ok(
                Parsed {
                    value: StmtView::Expression { expression: e.value },
                    pos: after,
                    id: e.id,
                },
            ),
            Err(error) => Err(error),
        },
        Err(error) => Err(error),
    }
}

/// printStmt → "print" expression ";", from after the keyword.
pub open spec fn print_statement(tokens: Seq<TokenView>, pos: int, id: usize) -> Result<
    Parsed<StmtView>,
    ParseErrorView,
>
    decreases remaining(tokens, pos), 40nat,
{
    match expression(tokens, pos, id) {
        Ok(e) => match consume(
            tokens,
            forward(pos, e.pos),
            TokenType::Semicolon,
            Message::ExpectSemicolonAfterValue,
        ) {
            Ok(after) => Ok(
                Parsed { value: StmtView::Print { expression: e.value }, pos: after, id: e.id },
            ),
            Err(error) => Err(error),
        },
        Err(error) => Err(error),
    }
}

/// varDecl → "var" IDENT ( "=" expression )? ";", from after the keyword.
pub open spec fn var_declaration(tokens: Seq<TokenView>, pos: int, id: usize) -> Result<
    Parsed<StmtView>,
    ParseErrorView,
>
    decreases remaining(tokens, pos), 40nat,
{
    match consume(tokens, pos, TokenType::Identifier, Message::ExpectVariableName) {
        Ok(after) => {
            let initializer = if check(tokens, after, TokenType::Equal) {
                match expression(tokens, after + 1, id) {
                    Ok(e) => Ok(
                        Parsed { value: Some(e.value), pos: forward(after + 1, e.pos), id: e.id },
                    ),
                    Err(error) => Err(error),
                }
            } else {
                Ok(Parsed { value: None::<HashExprView>, pos: after, id })
            };
            match initializer {
                Ok(initializer) => match consume(
                    tokens,
                    initializer.pos,
                    TokenType::Semicolon,
                    Message::ExpectSemicolonAfterVariable,
                ) {
                    Ok(end) => Ok(
                        Parsed {
                            value: StmtView::Var {
                                name: tokens[pos],
                                initializer: initializer.value,
                            },
                            pos: end,
                            id: initializer.id,
                        },
                    ),
                    Err(error) => Err(error),
                },
                Err(error) => Err(error),
            }
        },
        Err(error) => Err(error),
    }
}

/// returnStmt → "return" expression? ";", from after the keyword.
pub open spec fn return_statement(tokens: Seq<TokenView>, pos: int, id: usize) -> Result<
    Parsed<StmtView>,
    ParseErrorView,
>
    decreases remaining(tokens, pos), 40nat,
{
    match optional_expression(tokens, pos, id, TokenType::Semicolon) {
        Ok(value) => match consume(
            tokens,
            value.pos,
            TokenType::Semicolon,
            Message::ExpectSemicolonAfterReturn,
        ) {
            Ok(after) => Ok(
                Parsed {
                    value: StmtView::Return { keyword: tokens[pos - 1], value: value.value },
                    pos: after,
                    id: value.id,
                },
            ),
            Err(error) => Err(error),
        },
        Err(error) => Err(error),
    }
}

/// A condition in parentheses, as `if` and `while` have it.
pub open spec fn condition(
    tokens: Seq<TokenView>,
    pos: int,
    id: usize,
    before: Message,
    after: Message,
) -> Result<Parsed<HashExprView>, ParseErrorView>
    decreases remaining(tokens, pos), 40nat,
{
    match consume(tokens, pos, TokenType::LeftParen, before) {
        Ok(inside) => match expression(tokens, inside, id) {
            Ok(e) => match consume(tokens, forward(inside, e.pos), TokenType::RightParen, after) {
                Ok(end) => Ok(Parsed { value: e.value, pos: end, id: e.id }),
                Err(error) => Err(error),
            },
            Err(error) => Err(error),
        },
        Err(error) => Err(error),
    }
}

/// ifStmt → "if" "(" expression ")" statement ( "else" statement )?, from
/// after the keyword. An `else` belongs to the nearest `if`.
pub open spec fn if_statement(tokens: Seq<TokenView>, pos: int, id: usize) -> Result<
    Parsed<StmtView>,
    ParseErrorView,
>
    decreases remaining(tokens, pos), 41nat,
{
    match condition(
        tokens,
        pos,
        id,
        Message::ExpectParenAfterIf,
        Message::ExpectParenAfterIfCondition,
    ) {
        Ok(c) => match statement(tokens, advance(pos, c.pos), c.id) {
            Ok(then_branch) => {
                let next = forward(advance(pos, c.pos), then_branch.pos);
                if check(tokens, next, TokenType::Else) {
                    match statement(tokens, next + 1, then_branch.id) {
                        Ok(else_branch) => Ok(
                            Parsed {
                                value: StmtView::If {
                                    condition: c.value,
                                    then_branch: Box::new(then_branch.value),
                                    else_branch: Some(Box::new(else_branch.value)),
                                },
                                pos: else_branch.pos,
                                id: else_branch.id,
                            },
                        ),
                        Err(error) => Err(error),
                    }
                } else {
                    Ok(
                        Parsed {
                            value: StmtView::If {
                                condition: c.value,
                                then_branch: Box::new(then_branch.value),
                                else_branch: None,
                            },
                            pos: next,
                            id: then_branch.id,
                        },
                    )
                }
            },
            Err(error) => Err(error),
        },
        Err(error) => Err(error),
    }
}

/// whileStmt → "while" "(" expression ")" statement, from after the keyword.
pub open spec fn while_statement(tokens: Seq<TokenView>, pos: int, id: usize) -> Result<
    Parsed<StmtView>,
    ParseErrorView,
>
    decreases remaining(tokens, pos), 41nat,
{
    match condition(
        tokens,
        pos,
        id,
        Message::ExpectParenAfterWhile,
        Message::ExpectParenAfterWhileCondition,
    ) {
        Ok(c) => match statement(tokens, advance(pos, c.pos), c.id) {
            Ok(body) => Ok(
                Parsed {
                    value: StmtView::While { condition: c.value, body: Box::new(body.value) },
                    pos: body.pos,
                    id: body.id,
                },
            ),
            Err(error) => Err(error),
        },
        Err(error) => Err(error),
    }
}

/// The first clause of a `for`: nothing, a variable declaration or an
/// expression statement.
pub open spec fn for_initializer(tokens: Seq<TokenView>, pos: int, id: usize) -> Result<
    Parsed<Option<StmtView>>,
    ParseErrorView,
>
    decreases remaining(tokens, pos), 41nat,
{
    if check(tokens, pos, TokenType::Semicolon) {
        Ok(Parsed { value: None, pos: pos + 1, id })
    } else {
        let clause = if check(tokens, pos, TokenType::Var) {
            var_declaration(tokens, pos + 1, id)
        } else {
            expression_statement(tokens, pos, id)
        };
        match clause {
            Ok(clause) => Ok(
                Parsed { value: Some(clause.value), pos: advance(pos, clause.pos), id: clause.id },
            ),
            Err(error) => Err(error),
        }
    }
}

/// What a `for` loop is short for: a `while` loop whose body runs the
/// increment after the body of the `for`, inside a block that runs the
/// initializer first. A loop without a condition runs while `true`, a
/// literal that takes the number `id`.
pub open spec fn desugared(
    initializer: Option<StmtView>,
    condition: Option<HashExprView>,
    increment: Option<HashExprView>,
    body: StmtView,
    id: usize,
) -> (StmtView, usize) {
    let stepped = match increment {
        Some(increment) => StmtView::Block {
            statements: seq![body, StmtView::Expression { expression: increment }],
        },
        None => body,
    };
    let looped = match condition {
        Some(condition) => StmtView::While { condition, body: Box::new(stepped) },
        None => StmtView::While {
            condition: node(id, ExprView::Literal { value: ObjectView::Boolean(true) }),
            body: Box::new(stepped),
        },
    };
    (
        match initializer {
            Some(initializer) => StmtView::Block { statements: seq![initializer, looped] },
            None => looped,
        },
        if condition is Some {
            id
        } else {
            next_id(id)
        },
    )
}

/// forStmt → "for" "(" ( varDecl | exprStmt | ";" ) expression? ";"
///           expression? ")" statement, from after the keyword.
pub open spec fn for_statement(tokens: Seq<TokenView>, pos: int, id: usize) -> Result<
    Parsed<StmtView>,
    ParseErrorView,
>
    decreases remaining(tokens, pos), 42nat,
{
    match consume(tokens, pos, TokenType::LeftParen, Message::ExpectParenAfterFor) {
        Ok(inside) => match for_initializer(tokens, inside, id) {
            Ok(initializer) => match optional_expression(
                tokens,
                advance(inside, initializer.pos),
                initializer.id,
                TokenType::Semicolon,
            ) {
                Ok(condition) => match consume(
                    tokens,
                    condition.pos,
                    TokenType::Semicolon,
                    Message::ExpectSemicolonAfterLoopCondition,
                ) {
                    Ok(second) => match optional_expression(
                        tokens,
                        second,
                        condition.id,
                        TokenType::RightParen,
                    ) {
                        Ok(increment) => match consume(
                            tokens,
                            increment.pos,
                            TokenType::RightParen,
                            Message::ExpectParenAfterForClauses,
                        ) {
                            Ok(third) => match statement(
                                tokens,
                                advance(pos, third),
                                increment.id,
                            ) {
                                Ok(body) => {
                                    let whole = desugared(
                                        initializer.value,
                                        condition.value,
                                        increment.value,
                                        body.value,
                                        body.id,
                                    );
                                    Ok(Parsed { value: whole.0, pos: body.pos, id: whole.1 })
                                },
                                Err(error) => Err(error),
                            },
                            Err(error) => Err(error),
                        },
                        Err(error) => Err(error),
                    },
                    Err(error) => Err(error),
                },
                Err(error) => Err(error),
            },
            Err(error) => Err(error),
        },
        Err(error) => Err(error),
    }
}

/// The declarations of a block from `pos` on, after those in `statements`,
/// and the closing brace.
pub open spec fn block_rest(
    tokens: Seq<TokenView>,
    pos: int,
    id: usize,
    statements: Seq<StmtView>,
) -> Result<Parsed<Seq<StmtView>>, ParseErrorView>
    decreases remaining(tokens, pos), 45nat,
{
    if check(tokens, pos, TokenType::RightBrace) {
        Ok(Parsed { value: statements, pos: pos + 1, id })
    } else if is_at_end(tokens, pos) {
        Err(problem(Message::ExpectBraceAfterBlock, tokens, pos))
    } else {
        match declaration(tokens, pos, id) {
            Ok(d) => block_rest(tokens, advance(pos, d.pos), d.id, statements.push(d.value)),
            Err(error) => Err(error),
        }
    }
}

/// statement → exprStmt | printStmt | block | ifStmt | whileStmt | forStmt
///           | returnStmt
pub open spec fn statement(tokens: Seq<TokenView>, pos: int, id: usize) -> Result<
    Parsed<StmtView>,
    ParseErrorView,
>
    decreases remaining(tokens, pos), 43nat,
{
    if check(tokens, pos, TokenType::Return) {
        return_statement(tokens, pos + 1, id)
    } else if check(tokens, pos, TokenType::For) {
        for_statement(tokens, pos + 1, id)
    } else if check(tokens, pos, TokenType::While) {
        while_statement(tokens, pos + 1, id)
    } else if check(tokens, pos, TokenType::If) {
        if_statement(tokens, pos + 1, id)
    } else if check(tokens, pos, TokenType::Print) {
        print_statement(tokens, pos + 1, id)
    } else if check(tokens, pos, TokenType::LeftBrace) {
        match block_rest(tokens, pos + 1, id, Seq::empty()) {
            Ok(block) => Ok(
                Parsed {
                    value: StmtView::Block { statements: block.value },
                    pos: block.pos,
                    id: block.id,
                },
            ),
            Err(error) => Err(error),
        }
    } else {
        expression_statement(tokens, pos, id)
    }
}

/// The parameters of a function from `pos` on, after those in `params`, up
/// to but not including the closing parenthesis.
pub open spec fn parameters_rest(tokens: Seq<TokenView>, pos: int, params: Seq<TokenView>)
    -> Result<Parsed<Seq<TokenView>>, ParseErrorView>
    decreases remaining(tokens, pos),
{
    if params.len() >= PARAM_MAX_COUNT {
        Err(problem(Message::TooManyParameters, tokens, pos - 1))
    } else {
        match consume(tokens, pos, TokenType::Identifier, Message::ExpectParameterName) {
            Ok(after) => if check(tokens, after, TokenType::Comma) {
                parameters_rest(tokens, after + 1, params.push(tokens[pos]))
            } else {
                Ok(Parsed { value: params.push(tokens[pos]), pos: after, id: 0 })
            },
            Err(error) => Err(error),
        }
    }
}

/// function → IDENT "(" parameters? ")" block
pub open spec fn function(tokens: Seq<TokenView>, pos: int, id: usize, kind: FunctionKind)
    -> Result<Parsed<FunctionStmtView>, ParseErrorView>
    decreases remaining(tokens, pos), 46nat,
{
    match consume(
        tokens,
        pos,
        TokenType::Identifier,
        if kind == FunctionKind::Method {
            Message::ExpectMethodName
        } else {
            Message::ExpectFunctionName
        },
    ) {
        Ok(named) => match consume(
            tokens,
            named,
            TokenType::LeftParen,
            if kind == FunctionKind::Method {
                Message::ExpectParenAfterMethodName
            } else {
                Message::ExpectParenAfterFunctionName
            },
        ) {
            Ok(opened) => {
                let params = if check(tokens, opened, TokenType::RightParen) {
                    Ok(Parsed { value: Seq::<TokenView>::empty(), pos: opened, id: 0 })
                } else {
                    parameters_rest(tokens, opened, Seq::empty())
                };
                match params {
                    Ok(params) => match consume(
                        tokens,
                        params.pos,
                        TokenType::RightParen,
                        Message::ExpectParenAfterParameters,
                    ) {
                        Ok(closed) => match consume(
                            tokens,
                            closed,
                            TokenType::LeftBrace,
                            if kind == FunctionKind::Method {
                                Message::ExpectBraceBeforeMethodBody
                            } else {
                                Message::ExpectBraceBeforeFunctionBody
                            },
                        ) {
                            Ok(inside) => match block_rest(
                                tokens,
                                advance(pos, inside),
                                id,
                                Seq::empty(),
                            ) {
                                Ok(body) => Ok(
                                    Parsed {
                                        value: FunctionStmtView {
                                            name: tokens[pos],
                                            params: params.value,
                                            body: body.value,
                                        },
                                        pos: body.pos,
                                        id: body.id,
                                    },
                                ),
                                Err(error) => Err(error),
                            },
                            Err(error) => Err(error),
                        },
                        Err(error) => Err(error),
                    },
                    Err(error) => Err(error),
                }
            },
            Err(error) => Err(error),
        },
        Err(error) => Err(error),
    }
}

/// The methods of a class from `pos` on, after those in `methods`, and the
/// closing brace.
pub open spec fn methods_rest(
    tokens: Seq<TokenView>,
    pos: int,
    id: usize,
    methods: Seq<FunctionStmtView>,
) -> Result<Parsed<Seq<FunctionStmtView>>, ParseErrorView>
    decreases remaining(tokens, pos), 47nat,
{
    if check(tokens, pos, TokenType::RightBrace) {
        Ok(Parsed { value: methods, pos: pos + 1, id })
    } else if is_at_end(tokens, pos) {
        Err(problem(Message::ExpectBraceAfterClassBody, tokens, pos))
    } else {
        match function(tokens, pos, id, FunctionKind::Method) {
            Ok(method) => methods_rest(
                tokens,
                advance(pos, method.pos),
                method.id,
                methods.push(method.value),
            ),
            Err(error) => Err(error),
        }
    }
}

/// The superclass of a class, if the token at `pos` is `<`.
pub open spec fn superclass(tokens: Seq<TokenView>, pos: int, id: usize) -> Result<
    Parsed<Option<HashExprView>>,
    ParseErrorView,
> {
    if check(tokens, pos, TokenType::Less) {
        match consume(tokens, pos + 1, TokenType::Identifier, Message::ExpectSuperclassName) {
            Ok(after) => Ok(
                Parsed {
                    value: Some(node(id, ExprView::Variable { name: tokens[pos + 1] })),
                    pos: after,
                    id: next_id(id),
                },
            ),
            Err(error) => Err(error),
        }
    } else {
        Ok(Parsed { value: None, pos, id })
    }
}

/// classDecl → "class" IDENT ( "<" IDENT )? "{" function* "}", from after
/// the keyword.
pub open spec fn class_declaration(tokens: Seq<TokenView>, pos: int, id: usize) -> Result<
    Parsed<StmtView>,
    ParseErrorView,
>
    decreases remaining(tokens, pos), 48nat,
{
    match consume(tokens, pos, TokenType::Identifier, Message::ExpectClassName) {
        Ok(named) => match superclass(tokens, named, id) {
            Ok(above) => match consume(
                tokens,
                above.pos,
                TokenType::LeftBrace,
                Message::ExpectBraceBeforeClassBody,
            ) {
                Ok(inside) => match methods_rest(
                    tokens,
                    advance(pos, inside),
                    above.id,
                    Seq::empty(),
                ) {
                    Ok(methods) => Ok(
                        Parsed {
                            value: StmtView::Class {
                                name: tokens[pos],
                                superclass: above.value,
                                methods: methods.value,
                            },
                            pos: methods.pos,
                            id: methods.id,
                        },
                    ),
                    Err(error) => Err(error),
                },
                Err(error) => Err(error),
            },
            Err(error) => Err(error),
        },
        Err(error) => Err(error),
    }
}

/// declaration → classDecl | funDecl | varDecl | statement
pub open spec fn declaration(tokens: Seq<TokenView>, pos: int, id: usize) -> Result<
    Parsed<StmtView>,
    ParseErrorView,
>
    decreases remaining(tokens, pos), 44nat,
{
    if check(tokens, pos, TokenType::Class) {
        class_declaration(tokens, pos + 1, id)
    } else if check(tokens, pos, TokenType::Var) {
        var_declaration(tokens, pos + 1, id)
    } else if check(tokens, pos, TokenType::Fun) {
        match function(tokens, pos + 1, id, FunctionKind::Function) {
            Ok(f) => Ok(
                Parsed { value: StmtView::Function { declaration: f.value }, pos: f.pos, id: f.id },
            ),
            Err(error) => Err(error),
        }
    } else {
        statement(tokens, pos, id)
    }
}

/// program → declaration* EOF, from `pos` on and after the statements in
/// `statements`.
pub open spec fn program(tokens: Seq<TokenView>, pos: int, id: usize, statements: Seq<StmtView>)
    -> Result<Seq<StmtView>, ParseErrorView>
    decreases remaining(tokens, pos), 49nat,
{
    if is_at_end(tokens, pos) {
        Ok(statements)
    } else {
        match declaration(tokens, pos, id) {
            Ok(d) => program(tokens, advance(pos, d.pos), d.id, statements.push(d.value)),
            Err(error) => Err(error),
        }
    }
}

/// The statements that the tokens spell, or the first error. Expressions
/// are numbered from 1 in the order in which they are completed.
pub open spec fn parsed(tokens: Seq<TokenView>) -> Result<Seq<StmtView>, ParseErrorView> {
    program(tokens, 0, 1, Seq::empty())
}

/// The parser: the tokens, the place of the token it stands on and the
/// number that the next expression gets.
#[derive(Debug, Clone)]
pub struct Parser {
    pub tokens: Vec<Rc<Token>>,
    pub current: usize,
    pub next_id: usize,
}

/// What the result of a rule for expressions stands for, given the parser
/// as the rule left it.
pub open spec fn expr_outcome(r: Result<Rc<HashExpr>, ParseError>, parser: Parser) -> Result<
    Parsed<HashExprView>,
    ParseErrorView,
> {
    match r {
        Ok(e) => Ok(
            Parsed { value: expr_view(*e), pos: parser.current as int, id: parser.next_id },
        ),
        Err(error) => Err(error.deep_view()),
    }
}

/// What the result of a rule for statements stands for.
pub open spec fn stmt_outcome(r: Result<Rc<Stmt>, ParseError>, parser: Parser) -> Result<
    Parsed<StmtView>,
    ParseErrorView,
> {
    match r {
        Ok(s) => Ok(
            Parsed { value: stmt_view(*s), pos: parser.current as int, id: parser.next_id },
        ),
        Err(error) => Err(error.deep_view()),
    }
}

/// A list in memory is no longer than the largest index.
pub proof fn lemma_vec_fits<T>(v: &Vec<T>)
    ensures
        v@.len() <= usize::MAX,
{
    assert(v.len() == v@.len());
}

/// Whether the kind of token is an operator of the level.
fn operator_of(kind: TokenType, level: u8) -> (r: bool)
    ensures
        r == is_operator(kind, level),
{
    if level == OR {
        kind == TokenType::Or
    } else if level == AND {
        kind == TokenType::And
    } else if level == EQUALITY {
        kind == TokenType::BangEqual || kind == TokenType::EqualEqual
    } else if level == COMPARISON {
        kind == TokenType::Greater || kind == TokenType::GreaterEqual || kind == TokenType::Less
            || kind == TokenType::LessEqual
    } else if level == TERM {
        kind == TokenType::Minus || kind == TokenType::Plus
    } else if level == FACTOR {
        kind == TokenType::Slash || kind == TokenType::Star
    } else {
        false
    }
}

impl Parser {
    /// The parser at the first token. Expressions are numbered from 1.
    pub fn new(tokens: Vec<Rc<Token>>) -> (r: Parser)
        ensures
            r.tokens == tokens,
            r.current == 0,
            r.next_id == 1,
    {
        Parser { tokens, current: 0, next_id: 1 }
    }

    /// The tokens as the grammar sees them.
    pub open spec fn input(self) -> Seq<TokenView> {
        self.tokens.deep_view()
    }

    /// Whether the parser stands inside its tokens or right after them.
    pub open spec fn wf(self) -> bool {
        self.current <= self.tokens@.len() <= usize::MAX
    }

    /// Whether `self` is the parser `before` after it has moved on, or
    /// stayed where it was.
    pub open spec fn follows(self, before: Parser) -> bool {
        &&& self.tokens == before.tokens
        &&& before.current <= self.current <= self.tokens@.len() <= usize::MAX
    }

    fn peek(&self) -> (r: Option<Rc<Token>>)
        ensures
            match r {
                Some(token) => self.current < self.tokens@.len() && token
                    == self.tokens@[self.current as int] && peek(self.input(), self.current as int)
                    == Some(token.deep_view()),
                None => self.current >= self.tokens@.len() && peek(
                    self.input(),
                    self.current as int,
                ) is None,
            },
    {
        if self.current < self.tokens.len() {
            Some(self.tokens[self.current].clone())
        } else {
            None
        }
    }

    fn check(&self, kind: TokenType) -> (r: bool)
        ensures
            r == check(self.input(), self.current as int, kind),
    {
        self.current < self.tokens.len() && self.tokens[self.current].token_type == kind
    }

    fn is_at_end(&self) -> (r: bool)
        ensures
            r == is_at_end(self.input(), self.current as int),
    {
        !(self.current < self.tokens.len()) || self.tokens[self.current].token_type
            == TokenType::Eof
    }

    /// The token before the one the parser stands on.
    fn previous(&self) -> (r: Rc<Token>)
        requires
            0 < self.current <= self.tokens@.len(),
        ensures
            r == self.tokens@[self.current - 1],
            r.deep_view() == self.input()[self.current - 1],
    {
        self.tokens[self.current - 1].clone()
    }

    /// Steps over the token the parser stands on and gives it.
    fn advance(&mut self) -> (r: Rc<Token>)
        requires
            old(self).current < old(self).tokens@.len(),
        ensures
            final(self).tokens == old(self).tokens,
            final(self).next_id == old(self).next_id,
            final(self).current == old(self).current + 1,
            r == old(self).tokens@[old(self).current as int],
            r.deep_view() == old(self).input()[old(self).current as int],
    {
        proof {
            lemma_vec_fits(&self.tokens);
        }
        self.current += 1;
        self.previous()
    }

    /// The error with the given message at the token at `pos`.
    fn problem_at(&self, message: Message, pos: usize) -> (e: ParseError)
        ensures
            e.deep_view() == problem(message, self.input(), pos as int),
    {
        if pos < self.tokens.len() {
            ParseError {
                message,
                line: self.tokens[pos].line,
                lexeme: self.tokens[pos].lexeme.clone(),
            }
        } else {
            ParseError { message, line: 0, lexeme: String::new() }
        }
    }

    fn problem(&self, message: Message) -> (e: ParseError)
        ensures
            e.deep_view() == problem(message, self.input(), self.current as int),
    {
        self.problem_at(message, self.current)
    }

    /// The error with the given message at the token before the one the
    /// parser stands on.
    fn problem_before(&self, message: Message) -> (e: ParseError)
        ensures
            e.deep_view() == problem(message, self.input(), self.current - 1),
    {
        if self.current > 0 {
            self.problem_at(message, self.current - 1)
        } else {
            ParseError { message, line: 0, lexeme: String::new() }
        }
    }

    /// Steps over the token the parser stands on if it is of the given kind,
    /// and fails with the message if it is not.
    fn consume(&mut self, kind: TokenType, message: Message) -> (r: Result<Rc<Token>, ParseError>)
        ensures
            final(self).tokens == old(self).tokens,
            final(self).next_id == old(self).next_id,
            match r {
                Ok(token) => consume(old(self).input(), old(self).current as int, kind, message)
                    == Ok::<int, ParseErrorView>(final(self).current as int) && final(self).current
                    == old(self).current + 1 && final(self).current <= old(self).tokens@.len()
                    && token == old(self).tokens@[old(self).current as int] && token.deep_view()
                    == old(self).input()[old(self).current as int],
                Err(error) => consume(old(self).input(), old(self).current as int, kind, message)
                    == Err::<int, ParseErrorView>(error.deep_view()) && final(self).current == old(
                    self,
                ).current,
            },
    {
        if self.check(kind) {
            Ok(self.advance())
        } else {
            Err(self.problem(message))
        }
    }

    /// The expression with the next number.
    fn fresh(&mut self, expr: Expr) -> (r: Rc<HashExpr>)
        ensures
            final(self).tokens == old(self).tokens,
            final(self).current == old(self).current,
            final(self).next_id == next_id(old(self).next_id),
            r.id == old(self).next_id,
            r.expr == expr,
    {
        let id = self.next_id;
        if self.next_id < usize::MAX {
            self.next_id += 1;
        }
        Rc::new(HashExpr::new(id, expr))
    }

    #[verifier::rlimit(50)]
    fn primary(&mut self) -> (r: Result<Rc<HashExpr>, ParseError>)
        requires
            old(self).wf(),
        ensures
            final(self).follows(*old(self)),
            r is Ok ==> old(self).current < final(self).current,
            expr_outcome(r, *final(self)) == primary(
                old(self).input(),
                old(self).current as int,
                old(self).next_id,
            ),
        decreases old(self).tokens@.len() - old(self).current, 0nat,
    {
        let token = match self.peek() {
            Some(token) => token,
            None => {
                return Err(self.problem(Message::UnexpectedToken));
            },
        };
        match token.token_type {
            TokenType::This => {
                self.current += 1;
                Ok(self.fresh(Expr::This(ThisExpr::new(token))))
            },
            TokenType::False => {
                self.current += 1;
                Ok(self.fresh(Expr::Literal(LiteralExpr::new(Object::Boolean(false)))))
            },
            TokenType::True => {
                self.current += 1;
                Ok(self.fresh(Expr::Literal(LiteralExpr::new(Object::Boolean(true)))))
            },
            TokenType::Nil => {
                self.current += 1;
                Ok(self.fresh(Expr::Literal(LiteralExpr::new(Object::Nil))))
            },
            TokenType::Number | TokenType::String => {
                self.current += 1;
                Ok(self.fresh(Expr::Literal(LiteralExpr::new(token.literal.duplicate()))))
            },
            TokenType::Identifier => {
                self.current += 1;
                Ok(self.fresh(Expr::Variable(VariableExpr::new(token))))
            },
            TokenType::LeftParen => {
                self.current += 1;
                let inner = self.expression()?;
                self.consume(TokenType::RightParen, Message::ExpectParenAfterExpression)?;
                Ok(self.fresh(Expr::Grouping(GroupingExpr::new(inner))))
            },
            TokenType::Super => {
                self.current += 1;
                self.consume(TokenType::Dot, Message::ExpectDotAfterSuper)?;
                let method = self.consume(
                    TokenType::Identifier,
                    Message::ExpectSuperclassMethodName,
                )?;
                Ok(self.fresh(Expr::Super(SuperExpr::new(token, method))))
            },
            _ => Err(self.problem(Message::UnexpectedToken)),
        }
    }

    /// The arguments of a call, up to the closing parenthesis.
    fn arguments(&mut self) -> (r: Result<Vec<Rc<HashExpr>>, ParseError>)
        requires
            old(self).wf(),
        ensures
            final(self).follows(*old(self)),
            match r {
                Ok(arguments) => Ok(
                    Parsed {
                        value: exprs_view(arguments@),
                        pos: final(self).current as int,
                        id: final(self).next_id,
                    },
                ),
                Err(error) => Err(error.deep_view()),
            } == arguments_rest(
                old(self).input(),
                old(self).current as int,
                old(self).next_id,
                Seq::empty(),
            ),
        decreases old(self).tokens@.len() - old(self).current, 30nat,
    {
        let mut arguments: Vec<Rc<HashExpr>> = Vec::new();
        proof {
            lemma_exprs_view_empty();
        }
        loop
            invariant
                self.follows(*old(self)),
                arguments@.len() > 0 ==> old(self).current < self.current,
                arguments_rest(
                    old(self).input(),
                    old(self).current as int,
                    old(self).next_id,
                    Seq::empty(),
                ) == arguments_rest(
                    self.input(),
                    self.current as int,
                    self.next_id,
                    exprs_view(arguments@),
                ),
            decreases self.tokens@.len() - self.current,
        {
            if arguments.len() >= PARAM_MAX_COUNT {
                return Err(self.problem_before(Message::TooManyArguments));
            }
            let argument = self.expression()?;
            proof {
                lemma_exprs_view_push(arguments@, argument);
            }
            arguments.push(argument);
            if self.check(TokenType::Comma) {
                self.current += 1;
            } else {
                return Ok(arguments);
            }
        }
    }

    /// The rest of a call whose opening parenthesis has been read.
    fn finish_call(&mut self, callee: Rc<HashExpr>) -> (r: Result<Rc<HashExpr>, ParseError>)
        requires
            old(self).wf(),
        ensures
            final(self).follows(*old(self)),
            r is Ok ==> old(self).current < final(self).current,
            expr_outcome(r, *final(self)) == finish_call(
                old(self).input(),
                old(self).current as int,
                old(self).next_id,
                expr_view(*callee),
            ),
        decreases old(self).tokens@.len() - old(self).current, 31nat,
    {
        let arguments = if self.check(TokenType::RightParen) {
            proof {
                lemma_exprs_view_empty();
            }
            Vec::new()
        } else {
            self.arguments()?
        };
        let paren = self.consume(TokenType::RightParen, Message::ExpectParenAfterArguments)?;
        let call = self.fresh(Expr::Call(CallExpr::new(callee, paren, arguments)));
        proof {
            lemma_call_view(&call);
        }
        Ok(call)
    }

    #[verifier::rlimit(50)]
    fn call(&mut self) -> (r: Result<Rc<HashExpr>, ParseError>)
        requires
            old(self).wf(),
        ensures
            final(self).follows(*old(self)),
            r is Ok ==> old(self).current < final(self).current,
            expr_outcome(r, *final(self)) == call(
                old(self).input(),
                old(self).current as int,
                old(self).next_id,
            ),
        decreases old(self).tokens@.len() - old(self).current, 2nat,
    {
        let mut expr = self.primary()?;
        loop
            invariant
                self.follows(*old(self)),
                old(self).current < self.current,
                call(old(self).input(), old(self).current as int, old(self).next_id) == call_rest(
                    self.input(),
                    self.current as int,
                    self.next_id,
                    expr_view(*expr),
                ),
            decreases self.tokens@.len() - self.current,
        {
            if self.check(TokenType::LeftParen) {
                self.current += 1;
                expr = self.finish_call(expr)?;
            } else if self.check(TokenType::Dot) {
                self.current += 1;
                let name = self.consume(TokenType::Identifier, Message::ExpectPropertyName)?;
                expr = self.fresh(Expr::Get(GetExpr::new(expr, name)));
            } else {
                return Ok(expr);
            }
        }
    }

    fn unary(&mut self) -> (r: Result<Rc<HashExpr>, ParseError>)
        requires
            old(self).wf(),
        ensures
            final(self).follows(*old(self)),
            r is Ok ==> old(self).current < final(self).current,
            expr_outcome(r, *final(self)) == unary(
                old(self).input(),
                old(self).current as int,
                old(self).next_id,
            ),
        decreases old(self).tokens@.len() - old(self).current, 3nat,
    {
        if self.check(TokenType::Bang) || self.check(TokenType::Minus) {
            let op = self.advance();
            let right = self.unary()?;
            Ok(self.fresh(Expr::Unary(UnaryExpr::new(op, right))))
        } else {
            self.call()
        }
    }

    /// An operand of an operator of the level: an expression of the next
    /// level.
    fn operand(&mut self, level: u8) -> (r: Result<Rc<HashExpr>, ParseError>)
        requires
            old(self).wf(),
        ensures
            final(self).follows(*old(self)),
            r is Ok ==> old(self).current < final(self).current,
            expr_outcome(r, *final(self)) == operand(
                old(self).input(),
                old(self).current as int,
                old(self).next_id,
                level,
            ),
        decreases old(self).tokens@.len() - old(self).current, 3 * (level as nat) + 5,
    {
        if level <= FACTOR {
            self.unary()
        } else if level == TERM {
            self.factor()
        } else if level == COMPARISON {
            self.term()
        } else if level == EQUALITY {
            self.comparison()
        } else if level == AND {
            self.equality()
        } else if level == OR {
            self.and()
        } else {
            self.infix(level - 1)
        }
    }

    /// An expression of the level: operands joined by operators of the
    /// level, grouped to the left.
    fn infix(&mut self, level: u8) -> (r: Result<Rc<HashExpr>, ParseError>)
        requires
            old(self).wf(),
        ensures
            final(self).follows(*old(self)),
            r is Ok ==> old(self).current < final(self).current,
            expr_outcome(r, *final(self)) == infix(
                old(self).input(),
                old(self).current as int,
                old(self).next_id,
                level,
            ),
        decreases old(self).tokens@.len() - old(self).current, 3 * (level as nat) + 6,
    {
        let mut expr = self.operand(level)?;
        while self.current < self.tokens.len() && operator_of(
            self.tokens[self.current].token_type,
            level,
        )
            invariant
                self.follows(*old(self)),
                old(self).current < self.current,
                infix(old(self).input(), old(self).current as int, old(self).next_id, level)
                    == infix_rest(
                    self.input(),
                    self.current as int,
                    self.next_id,
                    level,
                    expr_view(*expr),
                ),
            decreases self.tokens@.len() - self.current,
        {
            let op = self.advance();
            let right = self.operand(level)?;
            expr = if level >= AND {
                self.fresh(Expr::Logical(LogicalExpr::new(expr, op, right)))
            } else {
                self.fresh(Expr::Binary(BinaryExpr::new(expr, op, right)))
            };
        }
        Ok(expr)
    }

    /// logic_or → logic_and ( "or" logic_and )*
    fn or(&mut self) -> (r: Result<Rc<HashExpr>, ParseError>)
        requires
            old(self).wf(),
        ensures
            final(self).follows(*old(self)),
            r is Ok ==> old(self).current < final(self).current,
            expr_outcome(r, *final(self)) == infix(
                old(self).input(),
                old(self).current as int,
                old(self).next_id,
                OR,
            ),
        decreases old(self).tokens@.len() - old(self).current, 3 * (OR as nat) + 7,
    {
        self.infix(OR)
    }

    /// logic_and → equality ( "and" equality )*
    fn and(&mut self) -> (r: Result<Rc<HashExpr>, ParseError>)
        requires
            old(self).wf(),
        ensures
            final(self).follows(*old(self)),
            r is Ok ==> old(self).current < final(self).current,
            expr_outcome(r, *final(self)) == infix(
                old(self).input(),
                old(self).current as int,
                old(self).next_id,
                AND,
            ),
        decreases old(self).tokens@.len() - old(self).current, 3 * (AND as nat) + 7,
    {
        self.infix(AND)
    }

    /// equality → comparison ( ( "!=" | "==" ) comparison )*
    fn equality(&mut self) -> (r: Result<Rc<HashExpr>, ParseError>)
        requires
            old(self).wf(),
        ensures
            final(self).follows(*old(self)),
            r is Ok ==> old(self).current < final(self).current,
            expr_outcome(r, *final(self)) == infix(
                old(self).input(),
                old(self).current as int,
                old(self).next_id,
                EQUALITY,
            ),
        decreases old(self).tokens@.len() - old(self).current, 3 * (EQUALITY as nat) + 7,
    {
        self.infix(EQUALITY)
    }

    /// comparison → term ( ( ">" | ">=" | "<" | "<=" ) term )*
    fn comparison(&mut self) -> (r: Result<Rc<HashExpr>, ParseError>)
        requires
            old(self).wf(),
        ensures
            final(self).follows(*old(self)),
            r is Ok ==> old(self).current < final(self).current,
            expr_outcome(r, *final(self)) == infix(
                old(self).input(),
                old(self).current as int,
                old(self).next_id,
                COMPARISON,
            ),
        decreases old(self).tokens@.len() - old(self).current, 3 * (COMPARISON as nat) + 7,
    {
        self.infix(COMPARISON)
    }

    /// term → factor ( ( "-" | "+" ) factor )*
    fn term(&mut self) -> (r: Result<Rc<HashExpr>, ParseError>)
        requires
            old(self).wf(),
        ensures
            final(self).follows(*old(self)),
            r is Ok ==> old(self).current < final(self).current,
            expr_outcome(r, *final(self)) == infix(
                old(self).input(),
                old(self).current as int,
                old(self).next_id,
                TERM,
            ),
        decreases old(self).tokens@.len() - old(self).current, 3 * (TERM as nat) + 7,
    {
        self.infix(TERM)
    }

    /// factor → unary ( ( "/" | "*" ) unary )*
    fn factor(&mut self) -> (r: Result<Rc<HashExpr>, ParseError>)
        requires
            old(self).wf(),
        ensures
            final(self).follows(*old(self)),
            r is Ok ==> old(self).current < final(self).current,
            expr_outcome(r, *final(self)) == infix(
                old(self).input(),
                old(self).current as int,
                old(self).next_id,
                FACTOR,
            ),
        decreases old(self).tokens@.len() - old(self).current, 3 * (FACTOR as nat) + 7,
    {
        self.infix(FACTOR)
    }

    #[verifier::rlimit(50)]
    fn assignment(&mut self) -> (r: Result<Rc<HashExpr>, ParseError>)
        requires
            old(self).wf(),
        ensures
            final(self).follows(*old(self)),
            r is Ok ==> old(self).current < final(self).current,
            expr_outcome(r, *final(self)) == assignment(
                old(self).input(),
                old(self).current as int,
                old(self).next_id,
            ),
        decreases old(self).tokens@.len() - old(self).current, 26nat,
    {
        let target = self.or()?;
        if self.check(TokenType::Equal) {
            let equal = self.current;
            self.current += 1;
            let value = self.assignment()?;
            match &target.expr {
                Expr::Get(get) => Ok(
                    self.fresh(
                        Expr::SetField(SetExpr::new(get.object.clone(), get.name.clone(), value)),
                    ),
                ),
                Expr::Variable(variable) => Ok(
                    self.fresh(Expr::Assign(AssignExpr::new(variable.name.clone(), value))),
                ),
                _ => Err(self.problem_at(Message::InvalidAssignmentTarget, equal)),
            }
        } else {
            Ok(target)
        }
    }

    fn expression(&mut self) -> (r: Result<Rc<HashExpr>, ParseError>)
        requires
            old(self).wf(),
        ensures
            final(self).follows(*old(self)),
            r is Ok ==> old(self).current < final(self).current,
            expr_outcome(r, *final(self)) == expression(
                old(self).input(),
                old(self).current as int,
                old(self).next_id,
            ),
        decreases old(self).tokens@.len() - old(self).current, 27nat,
    {
        self.assignment()
    }
}

/// What an optional expression stands for.
pub open spec fn optional_outcome(r: Result<Option<Rc<HashExpr>>, ParseError>, parser: Parser)
    -> Result<Parsed<Option<HashExprView>>, ParseErrorView> {
    match r {
        Ok(e) => Ok(
            Parsed {
                value: optional_expr_view(e),
                pos: parser.current as int,
                id: parser.next_id,
            },
        ),
        Err(error) => Err(error.deep_view()),
    }
}

/// What a list of statements stands for.
pub open spec fn stmts_outcome(r: Result<Vec<Rc<Stmt>>, ParseError>, parser: Parser) -> Result<
    Parsed<Seq<StmtView>>,
    ParseErrorView,
> {
    match r {
        Ok(statements) => Ok(
            Parsed {
                value: stmts_view(statements@),
                pos: parser.current as int,
                id: parser.next_id,
            },
        ),
        Err(error) => Err(error.deep_view()),
    }
}

/// What a function declaration stands for.
pub open spec fn function_outcome(r: Result<Rc<FunctionStmt>, ParseError>, parser: Parser)
    -> Result<Parsed<FunctionStmtView>, ParseErrorView> {
    match r {
        Ok(f) => Ok(
            Parsed { value: function_view(*f), pos: parser.current as int, id: parser.next_id },
        ),
        Err(error) => Err(error.deep_view()),
    }
}

/// The block of the two statements.
fn pair(first: Rc<Stmt>, second: Rc<Stmt>) -> (r: Rc<Stmt>)
    ensures
        stmt_view(*r) == (StmtView::Block {
            statements: seq![stmt_view(*first), stmt_view(*second)],
        }),
{
    let mut statements: Vec<Rc<Stmt>> = Vec::new();
    statements.push(first);
    statements.push(second);
    let r = Rc::new(Stmt::Block(BlockStmt::new(statements)));
    proof {
        lemma_stmt_view(&r);
        assert(stmts_view(statements@) =~= seq![stmt_view(*first), stmt_view(*second)]);
    }
    r
}

impl Parser {
    /// An expression, unless the parser stands on a token of the kind
    /// `until`.
    fn optional_expression(&mut self, until: TokenType) -> (r: Result<
        Option<Rc<HashExpr>>,
        ParseError,
    >)
        requires
            old(self).wf(),
        ensures
            final(self).follows(*old(self)),
            optional_outcome(r, *final(self)) == optional_expression(
                old(self).input(),
                old(self).current as int,
                old(self).next_id,
                until,
            ),
        decreases old(self).tokens@.len() - old(self).current, 39nat,
    {
        if self.check(until) {
            Ok(None)
        } else {
            Ok(Some(self.expression()?))
        }
    }

    fn expression_statement(&mut self) -> (r: Result<Rc<Stmt>, ParseError>)
        requires
            old(self).wf(),
        ensures
            final(self).follows(*old(self)),
            r is Ok ==> old(self).current < final(self).current,
            stmt_outcome(r, *final(self)) == expression_statement(
                old(self).input(),
                old(self).current as int,
                old(self).next_id,
            ),
        decreases old(self).tokens@.len() - old(self).current, 40nat,
    {
        let expr = self.expression()?;
        self.consume(TokenType::Semicolon, Message::ExpectSemicolonAfterExpression)?;
        Ok(Rc::new(Stmt::Expression(ExpressionStmt::new(expr))))
    }

    /// The rest of a `print` statement, after the keyword.
    fn print_statement(&mut self) -> (r: Result<Rc<Stmt>, ParseError>)
        requires
            old(self).wf(),
        ensures
            final(self).follows(*old(self)),
            r is Ok ==> old(self).current < final(self).current,
            stmt_outcome(r, *final(self)) == print_statement(
                old(self).input(),
                old(self).current as int,
                old(self).next_id,
            ),
        decreases old(self).tokens@.len() - old(self).current, 40nat,
    {
        let value = self.expression()?;
        self.consume(TokenType::Semicolon, Message::ExpectSemicolonAfterValue)?;
        Ok(Rc::new(Stmt::Print(PrintStmt::new(value))))
    }

    /// The rest of a variable declaration, after the keyword.
    fn var_declaration(&mut self) -> (r: Result<Rc<Stmt>, ParseError>)
        requires
            old(self).wf(),
        ensures
            final(self).follows(*old(self)),
            r is Ok ==> old(self).current < final(self).current,
            stmt_outcome(r, *final(self)) == var_declaration(
                old(self).input(),
                old(self).current as int,
                old(self).next_id,
            ),
        decreases old(self).tokens@.len() - old(self).current, 40nat,
    {
        let name = self.consume(TokenType::Identifier, Message::ExpectVariableName)?;
        let initializer = if self.check(TokenType::Equal) {
            self.current += 1;
            Some(self.expression()?)
        } else {
            None
        };
        self.consume(TokenType::Semicolon, Message::ExpectSemicolonAfterVariable)?;
        Ok(Rc::new(Stmt::Var(VarStmt::new(name, initializer))))
    }

    /// The rest of a `return` statement, after the keyword.
    fn return_statement(&mut self) -> (r: Result<Rc<Stmt>, ParseError>)
        requires
            old(self).wf(),
            old(self).current > 0,
        ensures
            final(self).follows(*old(self)),
            r is Ok ==> old(self).current < final(self).current,
            stmt_outcome(r, *final(self)) == return_statement(
                old(self).input(),
                old(self).current as int,
                old(self).next_id,
            ),
        decreases old(self).tokens@.len() - old(self).current, 40nat,
    {
        let keyword = self.previous();
        let value = self.optional_expression(TokenType::Semicolon)?;
        self.consume(TokenType::Semicolon, Message::ExpectSemicolonAfterReturn)?;
        Ok(Rc::new(Stmt::Return(ReturnStmt::new(keyword, value))))
    }

    /// A condition in parentheses.
    fn condition(&mut self, before: Message, after: Message) -> (r: Result<
        Rc<HashExpr>,
        ParseError,
    >)
        requires
            old(self).wf(),
        ensures
            final(self).follows(*old(self)),
            r is Ok ==> old(self).current < final(self).current,
            expr_outcome(r, *final(self)) == condition(
                old(self).input(),
                old(self).current as int,
                old(self).next_id,
                before,
                after,
            ),
        decreases old(self).tokens@.len() - old(self).current, 40nat,
    {
        self.consume(TokenType::LeftParen, before)?;
        let condition = self.expression()?;
        self.consume(TokenType::RightParen, after)?;
        Ok(condition)
    }

    /// The rest of an `if` statement, after the keyword.
    fn if_statement(&mut self) -> (r: Result<Rc<Stmt>, ParseError>)
        requires
            old(self).wf(),
        ensures
            final(self).follows(*old(self)),
            r is Ok ==> old(self).current < final(self).current,
            stmt_outcome(r, *final(self)) == if_statement(
                old(self).input(),
                old(self).current as int,
                old(self).next_id,
            ),
        decreases old(self).tokens@.len() - old(self).current, 41nat,
    {
        let condition = self.condition(
            Message::ExpectParenAfterIf,
            Message::ExpectParenAfterIfCondition,
        )?;
        let then_branch = self.statement()?;
        let else_branch = if self.check(TokenType::Else) {
            self.current += 1;
            Some(self.statement()?)
        } else {
            None
        };
        Ok(Rc::new(Stmt::If(IfStmt::new(condition, then_branch, else_branch))))
    }

    /// The rest of a `while` statement, after the keyword.
    fn while_statement(&mut self) -> (r: Result<Rc<Stmt>, ParseError>)
        requires
            old(self).wf(),
        ensures
            final(self).follows(*old(self)),
            r is Ok ==> old(self).current < final(self).current,
            stmt_outcome(r, *final(self)) == while_statement(
                old(self).input(),
                old(self).current as int,
                old(self).next_id,
            ),
        decreases old(self).tokens@.len() - old(self).current, 41nat,
    {
        let condition = self.condition(
            Message::ExpectParenAfterWhile,
            Message::ExpectParenAfterWhileCondition,
        )?;
        let body = self.statement()?;
        Ok(Rc::new(Stmt::While(WhileStmt::new(condition, body))))
    }

    /// The first clause of a `for`.
    fn for_initializer(&mut self) -> (r: Result<Option<Rc<Stmt>>, ParseError>)
        requires
            old(self).wf(),
        ensures
            final(self).follows(*old(self)),
            r is Ok ==> old(self).current < final(self).current,
            match r {
                Ok(clause) => Ok(
                    Parsed {
                        value: match clause {
                            Some(clause) => Some(stmt_view(*clause)),
                            None => None,
                        },
                        pos: final(self).current as int,
                        id: final(self).next_id,
                    },
                ),
                Err(error) => Err(error.deep_view()),
            } == for_initializer(old(self).input(), old(self).current as int, old(self).next_id),
        decreases old(self).tokens@.len() - old(self).current, 41nat,
    {
        if self.check(TokenType::Semicolon) {
            self.current += 1;
            Ok(None)
        } else if self.check(TokenType::Var) {
            self.current += 1;
            Ok(Some(self.var_declaration()?))
        } else {
            Ok(Some(self.expression_statement()?))
        }
    }

    /// Writes a `for` loop as the `while` loop that it is short for.
    fn desugar(
        &mut self,
        initializer: Option<Rc<Stmt>>,
        condition: Option<Rc<HashExpr>>,
        increment: Option<Rc<HashExpr>>,
        body: Rc<Stmt>,
    ) -> (r: Rc<Stmt>)
        ensures
            final(self).tokens == old(self).tokens,
            final(self).current == old(self).current,
            (stmt_view(*r), final(self).next_id) == desugared(
                match initializer {
                    Some(initializer) => Some(stmt_view(*initializer)),
                    None => None,
                },
                optional_expr_view(condition),
                optional_expr_view(increment),
                stmt_view(*body),
                old(self).next_id,
            ),
    {
        let stepped = match increment {
            Some(increment) => pair(
                body,
                Rc::new(Stmt::Expression(ExpressionStmt::new(increment))),
            ),
            None => body,
        };
        let condition = match condition {
            Some(condition) => condition,
            None => self.fresh(Expr::Literal(LiteralExpr::new(Object::Boolean(true)))),
        };
        let looped = Rc::new(Stmt::While(WhileStmt::new(condition, stepped)));
        match initializer {
            Some(initializer) => pair(initializer, looped),
            None => looped,
        }
    }

    /// The rest of a `for` statement, after the keyword.
    #[verifier::rlimit(50)]
    fn for_statement(&mut self) -> (r: Result<Rc<Stmt>, ParseError>)
        requires
            old(self).wf(),
        ensures
            final(self).follows(*old(self)),
            r is Ok ==> old(self).current < final(self).current,
            stmt_outcome(r, *final(self)) == for_statement(
                old(self).input(),
                old(self).current as int,
                old(self).next_id,
            ),
        decreases old(self).tokens@.len() - old(self).current, 42nat,
    {
        self.consume(TokenType::LeftParen, Message::ExpectParenAfterFor)?;
        let initializer = self.for_initializer()?;
        let condition = self.optional_expression(TokenType::Semicolon)?;
        self.consume(TokenType::Semicolon, Message::ExpectSemicolonAfterLoopCondition)?;
        let increment = self.optional_expression(TokenType::RightParen)?;
        self.consume(TokenType::RightParen, Message::ExpectParenAfterForClauses)?;
        let body = self.statement()?;
        Ok(self.desugar(initializer, condition, increment, body))
    }

    /// The declarations of a block, after its opening brace, and the
    /// closing brace.
    fn block(&mut self) -> (r: Result<Vec<Rc<Stmt>>, ParseError>)
        requires
            old(self).wf(),
        ensures
            final(self).follows(*old(self)),
            r is Ok ==> old(self).current < final(self).current,
            stmts_outcome(r, *final(self)) == block_rest(
                old(self).input(),
                old(self).current as int,
                old(self).next_id,
                Seq::empty(),
            ),
        decreases old(self).tokens@.len() - old(self).current, 45nat,
    {
        let mut statements: Vec<Rc<Stmt>> = Vec::new();
        proof {
            lemma_stmts_view_empty();
        }
        loop
            invariant
                self.follows(*old(self)),
                statements@.len() > 0 ==> old(self).current < self.current,
                block_rest(
                    old(self).input(),
                    old(self).current as int,
                    old(self).next_id,
                    Seq::empty(),
                ) == block_rest(
                    self.input(),
                    self.current as int,
                    self.next_id,
                    stmts_view(statements@),
                ),
            decreases self.tokens@.len() - self.current,
        {
            if self.check(TokenType::RightBrace) {
                self.current += 1;
                return Ok(statements);
            }
            if self.is_at_end() {
                return Err(self.problem(Message::ExpectBraceAfterBlock));
            }
            let declaration = self.declaration()?;
            proof {
                lemma_stmts_view_push(statements@, declaration);
            }
            statements.push(declaration);
        }
    }

    fn statement(&mut self) -> (r: Result<Rc<Stmt>, ParseError>)
        requires
            old(self).wf(),
        ensures
            final(self).follows(*old(self)),
            r is Ok ==> old(self).current < final(self).current,
            stmt_outcome(r, *final(self)) == statement(
                old(self).input(),
                old(self).current as int,
                old(self).next_id,
            ),
        decreases old(self).tokens@.len() - old(self).current, 43nat,
    {
        if self.check(TokenType::Return) {
            self.current += 1;
            self.return_statement()
        } else if self.check(TokenType::For) {
            self.current += 1;
            self.for_statement()
        } else if self.check(TokenType::While) {
            self.current += 1;
            self.while_statement()
        } else if self.check(TokenType::If) {
            self.current += 1;
            self.if_statement()
        } else if self.check(TokenType::Print) {
            self.current += 1;
            self.print_statement()
        } else if self.check(TokenType::LeftBrace) {
            self.current += 1;
            let block = Rc::new(Stmt::Block(BlockStmt::new(self.block()?)));
            proof {
                lemma_stmt_view(&block);
            }
            Ok(block)
        } else {
            self.expression_statement()
        }
    }

    /// The parameters of a function, up to the closing parenthesis.
    fn parameters(&mut self) -> (r: Result<Vec<Rc<Token>>, ParseError>)
        requires
            old(self).wf(),
        ensures
            final(self).follows(*old(self)),
            final(self).next_id == old(self).next_id,
            match r {
                Ok(params) => Ok(
                    Parsed { value: tokens_view(params@), pos: final(self).current as int, id: 0 },
                ),
                Err(error) => Err(error.deep_view()),
            } == parameters_rest(old(self).input(), old(self).current as int, Seq::empty()),
    {
        let mut params: Vec<Rc<Token>> = Vec::new();
        proof {
            lemma_tokens_view_empty();
        }
        loop
            invariant
                self.follows(*old(self)),
                self.next_id == old(self).next_id,
                parameters_rest(old(self).input(), old(self).current as int, Seq::empty())
                    == parameters_rest(self.input(), self.current as int, tokens_view(params@)),
            decreases self.tokens@.len() - self.current,
        {
            if params.len() >= PARAM_MAX_COUNT {
                return Err(self.problem_before(Message::TooManyParameters));
            }
            let param = self.consume(TokenType::Identifier, Message::ExpectParameterName)?;
            proof {
                lemma_tokens_view_push(params@, param);
            }
            params.push(param);
            if self.check(TokenType::Comma) {
                self.current += 1;
            } else {
                return Ok(params);
            }
        }
    }

    /// A function or a method, from its name on.
    #[verifier::rlimit(50)]
    fn function(&mut self, kind: FunctionKind) -> (r: Result<Rc<FunctionStmt>, ParseError>)
        requires
            old(self).wf(),
        ensures
            final(self).follows(*old(self)),
            r is Ok ==> old(self).current < final(self).current,
            function_outcome(r, *final(self)) == function(
                old(self).input(),
                old(self).current as int,
                old(self).next_id,
                kind,
            ),
        decreases old(self).tokens@.len() - old(self).current, 46nat,
    {
        let method = kind == FunctionKind::Method;
        let name = self.consume(
            TokenType::Identifier,
            if method {
                Message::ExpectMethodName
            } else {
                Message::ExpectFunctionName
            },
        )?;
        self.consume(
            TokenType::LeftParen,
            if method {
                Message::ExpectParenAfterMethodName
            } else {
                Message::ExpectParenAfterFunctionName
            },
        )?;
        let params = if self.check(TokenType::RightParen) {
            proof {
                lemma_tokens_view_empty();
            }
            Vec::new()
        } else {
            self.parameters()?
        };
        self.consume(TokenType::RightParen, Message::ExpectParenAfterParameters)?;
        self.consume(
            TokenType::LeftBrace,
            if method {
                Message::ExpectBraceBeforeMethodBody
            } else {
                Message::ExpectBraceBeforeFunctionBody
            },
        )?;
        let body = self.block()?;
        let function = Rc::new(FunctionStmt::new(name, params, body));
        proof {
            lemma_function_view(&function);
        }
        Ok(function)
    }

    /// The methods of a class, after the opening brace, and the closing
    /// brace.
    fn methods(&mut self) -> (r: Result<Vec<Rc<FunctionStmt>>, ParseError>)
        requires
            old(self).wf(),
        ensures
            final(self).follows(*old(self)),
            r is Ok ==> old(self).current < final(self).current,
            match r {
                Ok(methods) => Ok(
                    Parsed {
                        value: functions_view(methods@),
                        pos: final(self).current as int,
                        id: final(self).next_id,
                    },
                ),
                Err(error) => Err(error.deep_view()),
            } == methods_rest(
                old(self).input(),
                old(self).current as int,
                old(self).next_id,
                Seq::empty(),
            ),
        decreases old(self).tokens@.len() - old(self).current, 47nat,
    {
        let mut methods: Vec<Rc<FunctionStmt>> = Vec::new();
        proof {
            lemma_functions_view_empty();
        }
        loop
            invariant
                self.follows(*old(self)),
                methods@.len() > 0 ==> old(self).current < self.current,
                methods_rest(
                    old(self).input(),
                    old(self).current as int,
                    old(self).next_id,
                    Seq::empty(),
                ) == methods_rest(
                    self.input(),
                    self.current as int,
                    self.next_id,
                    functions_view(methods@),
                ),
            decreases self.tokens@.len() - self.current,
        {
            if self.check(TokenType::RightBrace) {
                self.current += 1;
                return Ok(methods);
            }
            if self.is_at_end() {
                return Err(self.problem(Message::ExpectBraceAfterClassBody));
            }
            let method = self.function(FunctionKind::Method)?;
            proof {
                lemma_functions_view_push(methods@, method);
            }
            methods.push(method);
        }
    }

    /// The superclass of a class, if the parser stands on `<`.
    fn superclass(&mut self) -> (r: Result<Option<Rc<HashExpr>>, ParseError>)
        requires
            old(self).wf(),
        ensures
            final(self).follows(*old(self)),
            optional_outcome(r, *final(self)) == superclass(
                old(self).input(),
                old(self).current as int,
                old(self).next_id,
            ),
    {
        if self.check(TokenType::Less) {
            self.current += 1;
            let name = self.consume(TokenType::Identifier, Message::ExpectSuperclassName)?;
            Ok(Some(self.fresh(Expr::Variable(VariableExpr::new(name)))))
        } else {
            Ok(None)
        }
    }

    /// The rest of a class declaration, after the keyword.
    fn class_declaration(&mut self) -> (r: Result<Rc<Stmt>, ParseError>)
        requires
            old(self).wf(),
        ensures
            final(self).follows(*old(self)),
            r is Ok ==> old(self).current < final(self).current,
            stmt_outcome(r, *final(self)) == class_declaration(
                old(self).input(),
                old(self).current as int,
                old(self).next_id,
            ),
        decreases old(self).tokens@.len() - old(self).current, 48nat,
    {
        let name = self.consume(TokenType::Identifier, Message::ExpectClassName)?;
        let superclass = self.superclass()?;
        self.consume(TokenType::LeftBrace, Message::ExpectBraceBeforeClassBody)?;
        let methods = self.methods()?;
        let class = Rc::new(Stmt::Class(Rc::new(ClassStmt::new(name, superclass, methods))));
        proof {
            lemma_stmt_view(&class);
        }
        Ok(class)
    }

    fn declaration(&mut self) -> (r: Result<Rc<Stmt>, ParseError>)
        requires
            old(self).wf(),
        ensures
            final(self).follows(*old(self)),
            r is Ok ==> old(self).current < final(self).current,
            stmt_outcome(r, *final(self)) == declaration(
                old(self).input(),
                old(self).current as int,
                old(self).next_id,
            ),
        decreases old(self).tokens@.len() - old(self).current, 44nat,
    {
        if self.check(TokenType::Class) {
            self.current += 1;
            self.class_declaration()
        } else if self.check(TokenType::Var) {
            self.current += 1;
            self.var_declaration()
        } else if self.check(TokenType::Fun) {
            self.current += 1;
            Ok(Rc::new(Stmt::Function(self.function(FunctionKind::Function)?)))
        } else {
            self.statement()
        }
    }
}

/// Parses the tokens of a program into its statements, or stops at the
/// first error.
pub fn parse(tokens: Vec<Rc<Token>>) -> (r: Result<Vec<Rc<Stmt>>, ParseError>)
    ensures
        match r {
            Ok(statements) => Ok(stmts_view(statements@)),
            Err(error) => Err(error.deep_view()),
        } == parsed(tokens.deep_view()),
{
    let mut parser = Parser::new(tokens);
    let mut statements: Vec<Rc<Stmt>> = Vec::new();
    proof {
        lemma_vec_fits(&parser.tokens);
        lemma_stmts_view_empty();
    }
    while !parser.is_at_end()
        invariant
            parser.wf(),
            parser.tokens == tokens,
            parsed(tokens.deep_view()) == program(
                parser.input(),
                parser.current as int,
                parser.next_id,
                stmts_view(statements@),
            ),
        decreases parser.tokens@.len() - parser.current,
    {
        match parser.declaration() {
            Ok(declaration) => {
                proof {
                    lemma_stmts_view_push(statements@, declaration);
                }
                statements.push(declaration);
            },
            Err(error) => {
                return Err(error);
            },
        }
    }
    Ok(statements)
}

/// Every rule stops at or after the place where it started, and inside the
/// tokens, and a rule that yields an expression or a statement stops after
/// it. So `forward` and `advance` never change a place: they are there to
/// make plain that the definitions come to an end.
proof fn lemma_primary_moves(tokens: Seq<TokenView>, pos: int, id: usize)
    requires
        0 <= pos <= tokens.len(),
    ensures
        primary(tokens, pos, id) matches Ok(p) ==> pos < p.pos <= tokens.len(),
    decreases remaining(tokens, pos), 0nat,
{
    if check(tokens, pos, TokenType::LeftParen) {
        lemma_expression_moves(tokens, pos + 1, id);
    }
}

proof fn lemma_arguments_rest_moves(
    tokens: Seq<TokenView>,
    pos: int,
    id: usize,
    arguments: Seq<HashExprView>,
)
    requires
        0 <= pos <= tokens.len(),
    ensures
        arguments_rest(tokens, pos, id, arguments) matches Ok(p) ==> pos < p.pos <= tokens.len(),
    decreases remaining(tokens, pos), 30nat,
{
    if arguments.len() < PARAM_MAX_COUNT {
        lemma_expression_moves(tokens, pos, id);
        match expression(tokens, pos, id) {
            Ok(argument) => {
                if check(tokens, argument.pos, TokenType::Comma) {
                    lemma_arguments_rest_moves(
                        tokens,
                        argument.pos + 1,
                        argument.id,
                        arguments.push(argument.value),
                    );
                }
            },
            Err(_) => {},
        }
    }
}

proof fn lemma_finish_call_moves(
    tokens: Seq<TokenView>,
    pos: int,
    id: usize,
    callee: HashExprView,
)
    requires
        0 <= pos <= tokens.len(),
    ensures
        finish_call(tokens, pos, id, callee) matches Ok(p) ==> pos < p.pos <= tokens.len(),
    decreases remaining(tokens, pos), 31nat,
{
    if !check(tokens, pos, TokenType::RightParen) {
        lemma_arguments_rest_moves(tokens, pos, id, Seq::empty());
    }
}

proof fn lemma_call_rest_moves(
    tokens: Seq<TokenView>,
    pos: int,
    id: usize,
    callee: HashExprView,
)
    requires
        0 <= pos <= tokens.len(),
    ensures
        call_rest(tokens, pos, id, callee) matches Ok(p) ==> pos <= p.pos <= tokens.len(),
    decreases remaining(tokens, pos), 1nat,
{
    if check(tokens, pos, TokenType::LeftParen) {
        lemma_finish_call_moves(tokens, pos + 1, id, callee);
        match finish_call(tokens, pos + 1, id, callee) {
            Ok(call) => lemma_call_rest_moves(tokens, call.pos, call.id, call.value),
            Err(_) => {},
        }
    } else if check(tokens, pos, TokenType::Dot) {
        if check(tokens, pos + 1, TokenType::Identifier) {
            lemma_call_rest_moves(
                tokens,
                pos + 2,
                next_id(id),
                node(id, ExprView::Get { object: Box::new(callee), name: tokens[pos + 1] }),
            );
        }
    }
}

proof fn lemma_call_moves(tokens: Seq<TokenView>, pos: int, id: usize)
    requires
        0 <= pos <= tokens.len(),
    ensures
        call(tokens, pos, id) matches Ok(p) ==> pos < p.pos <= tokens.len(),
    decreases remaining(tokens, pos), 2nat,
{
    lemma_primary_moves(tokens, pos, id);
    match primary(tokens, pos, id) {
        Ok(callee) => lemma_call_rest_moves(tokens, callee.pos, callee.id, callee.value),
        Err(_) => {},
    }
}

proof fn lemma_unary_moves(tokens: Seq<TokenView>, pos: int, id: usize)
    requires
        0 <= pos <= tokens.len(),
    ensures
        unary(tokens, pos, id) matches Ok(p) ==> pos < p.pos <= tokens.len(),
    decreases remaining(tokens, pos), 3nat,
{
    if check(tokens, pos, TokenType::Bang) || check(tokens, pos, TokenType::Minus) {
        lemma_unary_moves(tokens, pos + 1, id);
    } else {
        lemma_call_moves(tokens, pos, id);
    }
}

proof fn lemma_operand_moves(tokens: Seq<TokenView>, pos: int, id: usize, level: u8)
    requires
        0 <= pos <= tokens.len(),
    ensures
        operand(tokens, pos, id, level) matches Ok(p) ==> pos < p.pos <= tokens.len(),
    decreases remaining(tokens, pos), 3 * (level as nat) + 5,
{
    if level <= FACTOR {
        lemma_unary_moves(tokens, pos, id);
    } else {
        lemma_infix_moves(tokens, pos, id, (level - 1) as u8);
    }
}

proof fn lemma_infix_rest_moves(
    tokens: Seq<TokenView>,
    pos: int,
    id: usize,
    level: u8,
    left: HashExprView,
)
    requires
        0 <= pos <= tokens.len(),
    ensures
        infix_rest(tokens, pos, id, level, left) matches Ok(p) ==> pos <= p.pos <= tokens.len(),
    decreases remaining(tokens, pos), 3 * (level as nat) + 4,
{
    if 0 <= pos < tokens.len() && is_operator(tokens[pos].token_type, level) {
        lemma_operand_moves(tokens, pos + 1, id, level);
        match operand(tokens, pos + 1, id, level) {
            Ok(right) => lemma_infix_rest_moves(
                tokens,
                right.pos,
                next_id(right.id),
                level,
                node(right.id, combined(level, left, tokens[pos], right.value)),
            ),
            Err(_) => {},
        }
    }
}

proof fn lemma_infix_moves(tokens: Seq<TokenView>, pos: int, id: usize, level: u8)
    requires
        0 <= pos <= tokens.len(),
    ensures
        infix(tokens, pos, id, level) matches Ok(p) ==> pos < p.pos <= tokens.len(),
    decreases remaining(tokens, pos), 3 * (level as nat) + 6,
{
    lemma_operand_moves(tokens, pos, id, level);
    match operand(tokens, pos, id, level) {
        Ok(left) => lemma_infix_rest_moves(tokens, left.pos, left.id, level, left.value),
        Err(_) => {},
    }
}

proof fn lemma_assignment_moves(tokens: Seq<TokenView>, pos: int, id: usize)
    requires
        0 <= pos <= tokens.len(),
    ensures
        assignment(tokens, pos, id) matches Ok(p) ==> pos < p.pos <= tokens.len(),
    decreases remaining(tokens, pos), 25nat,
{
    lemma_infix_moves(tokens, pos, id, OR);
    match infix(tokens, pos, id, OR) {
        Ok(target) => {
            if check(tokens, target.pos, TokenType::Equal) {
                lemma_assignment_moves(tokens, target.pos + 1, target.id);
            }
        },
        Err(_) => {},
    }
}

/// An expression takes at least one token.
pub proof fn lemma_expression_moves(tokens: Seq<TokenView>, pos: int, id: usize)
    requires
        0 <= pos <= tokens.len(),
    ensures
        expression(tokens, pos, id) matches Ok(p) ==> pos < p.pos <= tokens.len(),
    decreases remaining(tokens, pos), 26nat,
{
    lemma_assignment_moves(tokens, pos, id);
}

proof fn lemma_optional_expression_moves(
    tokens: Seq<TokenView>,
    pos: int,
    id: usize,
    until: TokenType,
)
    requires
        0 <= pos <= tokens.len(),
    ensures
        optional_expression(tokens, pos, id, until) matches Ok(p) ==> pos <= p.pos <= tokens.len(),
    decreases remaining(tokens, pos), 39nat,
{
    if !check(tokens, pos, until) {
        lemma_expression_moves(tokens, pos, id);
    }
}

proof fn lemma_expression_statement_moves(tokens: Seq<TokenView>, pos: int, id: usize)
    requires
        0 <= pos <= tokens.len(),
    ensures
        expression_statement(tokens, pos, id) matches Ok(p) ==> pos < p.pos <= tokens.len(),
    decreases remaining(tokens, pos), 40nat,
{
    lemma_expression_moves(tokens, pos, id);
}

proof fn lemma_print_statement_moves(tokens: Seq<TokenView>, pos: int, id: usize)
    requires
        0 <= pos <= tokens.len(),
    ensures
        print_statement(tokens, pos, id) matches Ok(p) ==> pos < p.pos <= tokens.len(),
    decreases remaining(tokens, pos), 40nat,
{
    lemma_expression_moves(tokens, pos, id);
}

proof fn lemma_var_declaration_moves(tokens: Seq<TokenView>, pos: int, id: usize)
    requires
        0 <= pos <= tokens.len(),
    ensures
        var_declaration(tokens, pos, id) matches Ok(p) ==> pos < p.pos <= tokens.len(),
    decreases remaining(tokens, pos), 40nat,
{
    if check(tokens, pos, TokenType::Identifier) && check(tokens, pos + 1, TokenType::Equal) {
        lemma_expression_moves(tokens, pos + 2, id);
    }
}

proof fn lemma_return_statement_moves(tokens: Seq<TokenView>, pos: int, id: usize)
    requires
        0 <= pos <= tokens.len(),
    ensures
        return_statement(tokens, pos, id) matches Ok(p) ==> pos < p.pos <= tokens.len(),
    decreases remaining(tokens, pos), 40nat,
{
    lemma_optional_expression_moves(tokens, pos, id, TokenType::Semicolon);
}

proof fn lemma_condition_moves(
    tokens: Seq<TokenView>,
    pos: int,
    id: usize,
    before: Message,
    after: Message,
)
    requires
        0 <= pos <= tokens.len(),
    ensures
        condition(tokens, pos, id, before, after) matches Ok(p) ==> pos < p.pos <= tokens.len(),
    decreases remaining(tokens, pos), 40nat,
{
    if check(tokens, pos, TokenType::LeftParen) {
        lemma_expression_moves(tokens, pos + 1, id);
    }
}

proof fn lemma_if_statement_moves(tokens: Seq<TokenView>, pos: int, id: usize)
    requires
        0 <= pos <= tokens.len(),
    ensures
        if_statement(tokens, pos, id) matches Ok(p) ==> pos < p.pos <= tokens.len(),
    decreases remaining(tokens, pos), 41nat,
{
    lemma_condition_moves(
        tokens,
        pos,
        id,
        Message::ExpectParenAfterIf,
        Message::ExpectParenAfterIfCondition,
    );
    match condition(
        tokens,
        pos,
        id,
        Message::ExpectParenAfterIf,
        Message::ExpectParenAfterIfCondition,
    ) {
        Ok(c) => {
            lemma_statement_moves(tokens, c.pos, c.id);
            match statement(tokens, c.pos, c.id) {
                Ok(then_branch) => {
                    if check(tokens, then_branch.pos, TokenType::Else) {
                        lemma_statement_moves(tokens, then_branch.pos + 1, then_branch.id);
                    }
                },
                Err(_) => {},
            }
        },
        Err(_) => {},
    }
}

proof fn lemma_while_statement_moves(tokens: Seq<TokenView>, pos: int, id: usize)
    requires
        0 <= pos <= tokens.len(),
    ensures
        while_statement(tokens, pos, id) matches Ok(p) ==> pos < p.pos <= tokens.len(),
    decreases remaining(tokens, pos), 41nat,
{
    lemma_condition_moves(
        tokens,
        pos,
        id,
        Message::ExpectParenAfterWhile,
        Message::ExpectParenAfterWhileCondition,
    );
    match condition(
        tokens,
        pos,
        id,
        Message::ExpectParenAfterWhile,
        Message::ExpectParenAfterWhileCondition,
    ) {
        Ok(c) => lemma_statement_moves(tokens, c.pos, c.id),
        Err(_) => {},
    }
}

proof fn lemma_for_initializer_moves(tokens: Seq<TokenView>, pos: int, id: usize)
    requires
        0 <= pos <= tokens.len(),
    ensures
        for_initializer(tokens, pos, id) matches Ok(p) ==> pos < p.pos <= tokens.len(),
    decreases remaining(tokens, pos), 41nat,
{
    if !check(tokens, pos, TokenType::Semicolon) {
        if check(tokens, pos, TokenType::Var) {
            lemma_var_declaration_moves(tokens, pos + 1, id);
        } else {
            lemma_expression_statement_moves(tokens, pos, id);
        }
    }
}

proof fn lemma_for_statement_moves(tokens: Seq<TokenView>, pos: int, id: usize)
    requires
        0 <= pos <= tokens.len(),
    ensures
        for_statement(tokens, pos, id) matches Ok(p) ==> pos < p.pos <= tokens.len(),
    decreases remaining(tokens, pos), 42nat,
{
    if check(tokens, pos, TokenType::LeftParen) {
        lemma_for_initializer_moves(tokens, pos + 1, id);
        match for_initializer(tokens, pos + 1, id) {
            Ok(initializer) => {
                lemma_optional_expression_moves(
                    tokens,
                    initializer.pos,
                    initializer.id,
                    TokenType::Semicolon,
                );
                match optional_expression(
                    tokens,
                    initializer.pos,
                    initializer.id,
                    TokenType::Semicolon,
                ) {
                    Ok(condition) => {
                        if check(tokens, condition.pos, TokenType::Semicolon) {
                            lemma_optional_expression_moves(
                                tokens,
                                condition.pos + 1,
                                condition.id,
                                TokenType::RightParen,
                            );
                            match optional_expression(
                                tokens,
                                condition.pos + 1,
                                condition.id,
                                TokenType::RightParen,
                            ) {
                                Ok(increment) => {
                                    if check(tokens, increment.pos, TokenType::RightParen) {
                                        lemma_statement_moves(
                                            tokens,
                                            increment.pos + 1,
                                            increment.id,
                                        );
                                    }
                                },
                                Err(_) => {},
                            }
                        }
                    },
                    Err(_) => {},
                }
            },
            Err(_) => {},
        }
    }
}

proof fn lemma_block_rest_moves(
    tokens: Seq<TokenView>,
    pos: int,
    id: usize,
    statements: Seq<StmtView>,
)
    requires
        0 <= pos <= tokens.len(),
    ensures
        block_rest(tokens, pos, id, statements) matches Ok(p) ==> pos < p.pos <= tokens.len(),
    decreases remaining(tokens, pos), 45nat,
{
    if !check(tokens, pos, TokenType::RightBrace) && !is_at_end(tokens, pos) {
        lemma_declaration_moves(tokens, pos, id);
        match declaration(tokens, pos, id) {
            Ok(d) => lemma_block_rest_moves(tokens, d.pos, d.id, statements.push(d.value)),
            Err(_) => {},
        }
    }
}

/// A statement takes at least one token.
pub proof fn lemma_statement_moves(tokens: Seq<TokenView>, pos: int, id: usize)
    requires
        0 <= pos <= tokens.len(),
    ensures
        statement(tokens, pos, id) matches Ok(p) ==> pos < p.pos <= tokens.len(),
    decreases remaining(tokens, pos), 43nat,
{
    if check(tokens, pos, TokenType::Return) {
        lemma_return_statement_moves(tokens, pos + 1, id);
    } else if check(tokens, pos, TokenType::For) {
        lemma_for_statement_moves(tokens, pos + 1, id);
    } else if check(tokens, pos, TokenType::While) {
        lemma_while_statement_moves(tokens, pos + 1, id);
    } else if check(tokens, pos, TokenType::If) {
        lemma_if_statement_moves(tokens, pos + 1, id);
    } else if check(tokens, pos, TokenType::Print) {
        lemma_print_statement_moves(tokens, pos + 1, id);
    } else if check(tokens, pos, TokenType::LeftBrace) {
        lemma_block_rest_moves(tokens, pos + 1, id, Seq::empty());
    } else {
        lemma_expression_statement_moves(tokens, pos, id);
    }
}

proof fn lemma_parameters_rest_moves(tokens: Seq<TokenView>, pos: int, params: Seq<TokenView>)
    requires
        0 <= pos <= tokens.len(),
    ensures
        parameters_rest(tokens, pos, params) matches Ok(p) ==> pos < p.pos <= tokens.len(),
    decreases remaining(tokens, pos),
{
    if params.len() < PARAM_MAX_COUNT && check(tokens, pos, TokenType::Identifier) && check(
        tokens,
        pos + 1,
        TokenType::Comma,
    ) {
        lemma_parameters_rest_moves(tokens, pos + 2, params.push(tokens[pos]));
    }
}

proof fn lemma_function_moves(tokens: Seq<TokenView>, pos: int, id: usize, kind: FunctionKind)
    requires
        0 <= pos <= tokens.len(),
    ensures
        function(tokens, pos, id, kind) matches Ok(p) ==> pos < p.pos <= tokens.len(),
    decreases remaining(tokens, pos), 46nat,
{
    if check(tokens, pos, TokenType::Identifier) && check(tokens, pos + 1, TokenType::LeftParen) {
        if !check(tokens, pos + 2, TokenType::RightParen) {
            lemma_parameters_rest_moves(tokens, pos + 2, Seq::empty());
        }
        let params = if check(tokens, pos + 2, TokenType::RightParen) {
            Ok(Parsed { value: Seq::<TokenView>::empty(), pos: pos + 2, id: 0 })
        } else {
            parameters_rest(tokens, pos + 2, Seq::empty())
        };
        match params {
            Ok(params) => {
                if check(tokens, params.pos, TokenType::RightParen) && check(
                    tokens,
                    params.pos + 1,
                    TokenType::LeftBrace,
                ) {
                    lemma_block_rest_moves(tokens, params.pos + 2, id, Seq::empty());
                }
            },
            Err(_) => {},
        }
    }
}

proof fn lemma_methods_rest_moves(
    tokens: Seq<TokenView>,
    pos: int,
    id: usize,
    methods: Seq<FunctionStmtView>,
)
    requires
        0 <= pos <= tokens.len(),
    ensures
        methods_rest(tokens, pos, id, methods) matches Ok(p) ==> pos < p.pos <= tokens.len(),
    decreases remaining(tokens, pos), 47nat,
{
    if !check(tokens, pos, TokenType::RightBrace) && !is_at_end(tokens, pos) {
        lemma_function_moves(tokens, pos, id, FunctionKind::Method);
        match function(tokens, pos, id, FunctionKind::Method) {
            Ok(method) => lemma_methods_rest_moves(
                tokens,
                method.pos,
                method.id,
                methods.push(method.value),
            ),
            Err(_) => {},
        }
    }
}

proof fn lemma_class_declaration_moves(tokens: Seq<TokenView>, pos: int, id: usize)
    requires
        0 <= pos <= tokens.len(),
    ensures
        class_declaration(tokens, pos, id) matches Ok(p) ==> pos < p.pos <= tokens.len(),
    decreases remaining(tokens, pos), 48nat,
{
    if check(tokens, pos, TokenType::Identifier) {
        match superclass(tokens, pos + 1, id) {
            Ok(above) => {
                if check(tokens, above.pos, TokenType::LeftBrace) {
                    lemma_methods_rest_moves(tokens, above.pos + 1, above.id, Seq::empty());
                }
            },
            Err(_) => {},
        }
    }
}

/// A declaration takes at least one token.
pub proof fn lemma_declaration_moves(tokens: Seq<TokenView>, pos: int, id: usize)
    requires
        0 <= pos <= tokens.len(),
    ensures
        declaration(tokens, pos, id) matches Ok(p) ==> pos < p.pos <= tokens.len(),
    decreases remaining(tokens, pos), 44nat,
{
    if check(tokens, pos, TokenType::Class) {
        lemma_class_declaration_moves(tokens, pos + 1, id);
    } else if check(tokens, pos, TokenType::Var) {
        lemma_var_declaration_moves(tokens, pos + 1, id);
    } else if check(tokens, pos, TokenType::Fun) {
        lemma_function_moves(tokens, pos + 1, id, FunctionKind::Function);
    } else {
        lemma_statement_moves(tokens, pos, id);
    }
}

impl Message {
    /// What the message says.
    pub open spec fn wording(self) -> Seq<char> {
        match self {
            Message::ExpectFunctionName => "Expect function name."@,
            Message::ExpectMethodName => "Expect method name."@,
            Message::ExpectParenAfterFunctionName => "Expect '(' after function name."@,
            Message::ExpectParenAfterMethodName => "Expect '(' after method name."@,
            Message::ExpectParameterName => "Expect parameter name."@,
            Message::ExpectParenAfterParameters => "Expect ')' after parameters."@,
            Message::ExpectBraceBeforeFunctionBody => "Expect '{' before function body."@,
            Message::ExpectBraceBeforeMethodBody => "Expect '{' before method body."@,
            Message::ExpectClassName => "Expect class name."@,
            Message::ExpectSuperclassName => "Expect superclass name."@,
            Message::ExpectBraceBeforeClassBody => "Expect '{' before class body."@,
            Message::ExpectBraceAfterClassBody => "Expect '}' after class body."@,
            Message::ExpectVariableName => "Expect variable name."@,
            Message::ExpectSemicolonAfterVariable => "Expect ';' after variable declaration."@,
            Message::ExpectBraceAfterBlock => "Expect '}' after block."@,
            Message::ExpectParenAfterFor => "Expect '(' after 'for'."@,
            Message::ExpectSemicolonAfterLoopCondition => "Expect ';' after loop condition."@,
            Message::ExpectParenAfterForClauses => "Expect ')' after for clauses."@,
            Message::ExpectParenAfterWhile => "Expect '(' after 'while'."@,
            Message::ExpectParenAfterWhileCondition => "Expect ')' after while condition."@,
            Message::ExpectSemicolonAfterReturn => "Expect ';' after return value."@,
            Message::ExpectParenAfterIf => "Expect '(' after 'if'."@,
            Message::ExpectParenAfterIfCondition => "Expect ')' after if condition."@,
            Message::ExpectSemicolonAfterValue => "Expect ';' after value."@,
            Message::ExpectSemicolonAfterExpression => "Expect ';' after expression."@,
            Message::ExpectPropertyName => "Expect property name after '.'."@,
            Message::ExpectParenAfterArguments => "Expect ')' after arguments."@,
            Message::ExpectParenAfterExpression => "Expect ')' after expression."@,
            Message::ExpectDotAfterSuper => "Expect '.' after 'super'."@,
            Message::ExpectSuperclassMethodName => "Expect superclass method name."@,
            Message::TooManyArguments => "Can't have more than 255 arguments."@,
            Message::TooManyParameters => "Can't have more than 255 parameters."@,
            Message::InvalidAssignmentTarget => "Invalid assignment target."@,
            Message::UnexpectedToken => "Unexpected token."@,
        }
    }

    /// What the message says, as text.
    pub fn message(&self) -> (r: String)
        ensures
            r@ == self.wording(),
    {
        match self {
            Message::ExpectFunctionName => String::from_str("Expect function name."),
            Message::ExpectMethodName => String::from_str("Expect method name."),
            Message::ExpectParenAfterFunctionName => String::from_str(
                "Expect '(' after function name.",
            ),
            Message::ExpectParenAfterMethodName => String::from_str(
                "Expect '(' after method name.",
            ),
            Message::ExpectParameterName => String::from_str("Expect parameter name."),
            Message::ExpectParenAfterParameters => String::from_str("Expect ')' after parameters."),
            Message::ExpectBraceBeforeFunctionBody => String::from_str(
                "Expect '{' before function body.",
            ),
            Message::ExpectBraceBeforeMethodBody => String::from_str(
                "Expect '{' before method body.",
            ),
            Message::ExpectClassName => String::from_str("Expect class name."),
            Message::ExpectSuperclassName => String::from_str("Expect superclass name."),
            Message::ExpectBraceBeforeClassBody => String::from_str(
                "Expect '{' before class body.",
            ),
            Message::ExpectBraceAfterClassBody => String::from_str("Expect '}' after class body."),
            Message::ExpectVariableName => String::from_str("Expect variable name."),
            Message::ExpectSemicolonAfterVariable => String::from_str(
                "Expect ';' after variable declaration.",
            ),
            Message::ExpectBraceAfterBlock => String::from_str("Expect '}' after block."),
            Message::ExpectParenAfterFor => String::from_str("Expect '(' after 'for'."),
            Message::ExpectSemicolonAfterLoopCondition => String::from_str(
                "Expect ';' after loop condition.",
            ),
            Message::ExpectParenAfterForClauses => String::from_str(
                "Expect ')' after for clauses.",
            ),
            Message::ExpectParenAfterWhile => String::from_str("Expect '(' after 'while'."),
            Message::ExpectParenAfterWhileCondition => String::from_str(
                "Expect ')' after while condition.",
            ),
            Message::ExpectSemicolonAfterReturn => String::from_str(
                "Expect ';' after return value.",
            ),
            Message::ExpectParenAfterIf => String::from_str("Expect '(' after 'if'."),
            Message::ExpectParenAfterIfCondition => String::from_str(
                "Expect ')' after if condition.",
            ),
            Message::ExpectSemicolonAfterValue => String::from_str("Expect ';' after value."),
            Message::ExpectSemicolonAfterExpression => String::from_str(
                "Expect ';' after expression.",
            ),
            Message::ExpectPropertyName => String::from_str("Expect property name after '.'."),
            Message::ExpectParenAfterArguments => String::from_str("Expect ')' after arguments."),
            Message::ExpectParenAfterExpression => String::from_str("Expect ')' after expression."),
            Message::ExpectDotAfterSuper => String::from_str("Expect '.' after 'super'."),
            Message::ExpectSuperclassMethodName => String::from_str(
                "Expect superclass method name.",
            ),
            Message::TooManyArguments => String::from_str("Can't have more than 255 arguments."),
            Message::TooManyParameters => String::from_str("Can't have more than 255 parameters."),
            Message::InvalidAssignmentTarget => String::from_str("Invalid assignment target."),
            Message::UnexpectedToken => String::from_str("Unexpected token."),
        }
    }
}

impl ParseError {
    /// The error as a line of text: the line and the text of the token it
    /// was noticed at, and what it says.
    pub fn report(&self) -> (r: String)
        ensures
            r@ == reported(self.line, self.lexeme@, self.message.wording()),
    {
        report(self.line, &self.lexeme, self.message.message())
    }
}

} // verus!
