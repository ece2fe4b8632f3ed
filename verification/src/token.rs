//! Lexical units.

use vstd::prelude::*;
use crate::object::{Object, ObjectView};

verus! {

/// The kinds of token.
#[derive(Debug, Clone, Copy, PartialEq, Eq, Structural)]
pub enum TokenType {
    // Single-character tokens
    LeftParen,
    RightParen,
    LeftBrace,
    RightBrace,
    Comma,
    Dot,
    Minus,
    Plus,
    Semicolon,
    Slash,
    Star,
    // One or two character tokens
    Bang,
    BangEqual,
    Equal,
    EqualEqual,
    Greater,
    GreaterEqual,
    Less,
    LessEqual,
    // Literals
    Identifier,
    String,
    Number,
    // Keywords
    And,
    Class,
    Else,
    False,
    Fun,
    For,
    If,
    Nil,
    Or,
    Print,
    Return,
    Super,
    This,
    True,
    Var,
    While,
    Eof,
}

/// A token: its kind, the text it was read from, the value it carries (a
/// number or the body of a string, else nil) and the line it ends on.
#[derive(Debug, Clone, PartialEq)]
pub struct Token {
    pub token_type: TokenType,
    pub lexeme: String,
    pub literal: Object,
    pub line: usize,
}

/// What a [`Token`] stands for.
pub struct TokenView {
    pub token_type: TokenType,
    pub lexeme: Seq<char>,
    pub literal: ObjectView,
    pub line: usize,
}

impl DeepView for Token {
    type V = TokenView;

    open spec fn deep_view(&self) -> TokenView {
        TokenView {
            token_type: self.token_type,
            lexeme: self.lexeme@,
            literal: self.literal.deep_view(),
            line: self.line,
        }
    }
}

impl Token {
    /// The token with these parts.
    pub fn new(token_type: TokenType, lexeme: String, literal: Object, line: usize) -> (token:
        Token)
        ensures
            token.token_type == token_type,
            token.lexeme == lexeme,
            token.literal == literal,
            token.line == line,
    {
        Token { token_type, lexeme, literal, line }
    }
}

} // verus!
