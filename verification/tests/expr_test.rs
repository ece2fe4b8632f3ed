use rlox::expr::{BinaryExpr, Expr, GroupingExpr, HashExpr, LiteralExpr, UnaryExpr, VariableExpr};
use rlox::object::Object;
use rlox::token::{Token, TokenType};
use std::rc::Rc;

fn written_number(bits: u64) -> String {
    format!("{}", f64::from_bits(bits))
}

#[test]
fn test_to_string() {
    let expression = HashExpr::new(
        5,
        Expr::Binary(BinaryExpr::new(
            Rc::new(HashExpr::new(
                2,
                Expr::Unary(UnaryExpr::new(
                    Rc::new(Token::new(TokenType::Minus, "-".to_string(), Object::Nil, 1)),
                    Rc::new(HashExpr::new(
                        1,
                        Expr::Literal(LiteralExpr::new(Object::Number(123f64.to_bits()))),
                    )),
                )),
            )),
            Rc::new(Token::new(TokenType::Star, "*".to_string(), Object::Nil, 1)),
            Rc::new(HashExpr::new(
                4,
                Expr::Grouping(GroupingExpr::new(Rc::new(HashExpr::new(
                    3,
                    Expr::Literal(LiteralExpr::new(Object::Number(45.67f64.to_bits()))),
                )))),
            )),
        )),
    );

    assert_eq!(expression.to_string(&written_number), "(* (- 123) (45.67))".to_string());
}

#[test]
fn literals_are_written_as_in_the_source() {
    let literal = |value: Object| HashExpr::new(1, Expr::Literal(LiteralExpr::new(value)));
    assert_eq!(literal(Object::Nil).to_string(&written_number), "nil");
    assert_eq!(literal(Object::Boolean(true)).to_string(&written_number), "true");
    assert_eq!(literal(Object::Boolean(false)).to_string(&written_number), "false");
    assert_eq!(literal(Object::String("text".to_string())).to_string(&written_number), "text");
    assert_eq!(literal(Object::Number(0.5f64.to_bits())).to_string(&written_number), "0.5");
}

#[test]
fn other_expressions_are_written_as_nothing() {
    let name = Rc::new(Token::new(TokenType::Identifier, "a".to_string(), Object::Nil, 1));
    let variable = HashExpr::new(1, Expr::Variable(VariableExpr::new(name)));
    assert_eq!(variable.to_string(&written_number), "");
    let grouped = HashExpr::new(2, Expr::Grouping(GroupingExpr::new(Rc::new(variable))));
    assert_eq!(grouped.to_string(&written_number), "()");
}
