use rlox::object::Object;
use rlox::scanner::{characters, scan_shapes, scan_tokens, ScanError, ScanErrorKind, Scanner};
use rlox::token::{Token, TokenType};
use std::rc::Rc;

fn number_of(lexeme: &String) -> u64 {
    lexeme.parse::<f64>().unwrap().to_bits()
}

fn kinds(code: &str) -> Vec<TokenType> {
    scan_tokens(code, &number_of).unwrap().iter().map(|token| token.token_type).collect()
}

fn lexemes(code: &str) -> Vec<String> {
    scan_tokens(code, &number_of).unwrap().iter().map(|token| token.lexeme.clone()).collect()
}

fn scan_error(code: &str) -> ScanError {
    match scan_tokens(code, &number_of) {
        Err(error) => error,
        Ok(tokens) => panic!("scanned: {:?}", tokens),
    }
}

#[test]
fn punctuation_and_operators() {
    assert_eq!(
        kinds("(){},.-+;/* ! != = == > >= < <="),
        vec![
            TokenType::LeftParen,
            TokenType::RightParen,
            TokenType::LeftBrace,
            TokenType::RightBrace,
            TokenType::Comma,
            TokenType::Dot,
            TokenType::Minus,
            TokenType::Plus,
            TokenType::Semicolon,
            TokenType::Slash,
            TokenType::Star,
            TokenType::Bang,
            TokenType::BangEqual,
            TokenType::Equal,
            TokenType::EqualEqual,
            TokenType::Greater,
            TokenType::GreaterEqual,
            TokenType::Less,
            TokenType::LessEqual,
            TokenType::Eof,
        ]
    );
    assert_eq!(kinds("==="), vec![TokenType::EqualEqual, TokenType::Equal, TokenType::Eof]);
    assert_eq!(kinds("!!="), vec![TokenType::Bang, TokenType::BangEqual, TokenType::Eof]);
    assert_eq!(kinds("<"), vec![TokenType::Less, TokenType::Eof]);
}

#[test]
fn keywords_and_identifiers() {
    assert_eq!(
        kinds("and class else false fun for if nil or print return super this true var while"),
        vec![
            TokenType::And,
            TokenType::Class,
            TokenType::Else,
            TokenType::False,
            TokenType::Fun,
            TokenType::For,
            TokenType::If,
            TokenType::Nil,
            TokenType::Or,
            TokenType::Print,
            TokenType::Return,
            TokenType::Super,
            TokenType::This,
            TokenType::True,
            TokenType::Var,
            TokenType::While,
            TokenType::Eof,
        ]
    );
    assert_eq!(
        kinds("andy _and And classes f0r _ a_1"),
        vec![
            TokenType::Identifier,
            TokenType::Identifier,
            TokenType::Identifier,
            TokenType::Identifier,
            TokenType::Identifier,
            TokenType::Identifier,
            TokenType::Identifier,
            TokenType::Eof,
        ]
    );
    assert_eq!(lexemes("andy _and a_1"), vec!["andy", "_and", "a_1", ""]);
}

#[test]
fn the_list_ends_with_eof() {
    let tokens = scan_tokens("", &number_of).unwrap();
    assert_eq!(tokens.len(), 1);
    assert_eq!(*tokens[0], Token::new(TokenType::Eof, String::new(), Object::Nil, 1));
    let tokens = scan_tokens("\n\n", &number_of).unwrap();
    assert_eq!(*tokens[0], Token::new(TokenType::Eof, String::new(), Object::Nil, 3));
}

#[test]
fn numbers_carry_their_value() {
    let tokens = scan_tokens("123 45.67 0 0.5", &number_of).unwrap();
    assert_eq!(
        *tokens[0],
        Token::new(TokenType::Number, "123".to_string(), Object::Number(123f64.to_bits()), 1)
    );
    assert_eq!(
        *tokens[1],
        Token::new(TokenType::Number, "45.67".to_string(), Object::Number(45.67f64.to_bits()), 1)
    );
    assert_eq!(tokens[2].literal, Object::Number(0));
    assert_eq!(tokens[3].literal, Object::Number(0.5f64.to_bits()));
    assert_eq!(tokens.len(), 5);
}

#[test]
fn the_value_of_a_number_is_what_the_conversion_says() {
    let tokens = scan_tokens("12 \"12\" x", &|lexeme: &String| lexeme.len() as u64 + 40).unwrap();
    assert_eq!(tokens[0].literal, Object::Number(42));
    assert_eq!(tokens[1].literal, Object::String("12".to_string()));
    assert_eq!(tokens[2].literal, Object::Nil);
}

#[test]
fn numbers_before_the_conversion_carry_nothing() {
    let shapes = scan_shapes("1.5;").unwrap();
    assert_eq!(shapes[0], Token::new(TokenType::Number, "1.5".to_string(), Object::Nil, 1));
    assert_eq!(shapes[1].token_type, TokenType::Semicolon);
    assert_eq!(shapes[2].token_type, TokenType::Eof);
}

#[test]
fn a_number_followed_by_a_method_call_is_no_number() {
    assert_eq!(scan_error("123.").kind, ScanErrorKind::InvalidNumber);
    assert_eq!(scan_error("123abc").kind, ScanErrorKind::InvalidNumber);
    assert_eq!(scan_error("1.2.3").kind, ScanErrorKind::InvalidNumber);
    assert_eq!(scan_error("1._").kind, ScanErrorKind::InvalidNumber);
    assert_eq!(scan_error("\n12_").kind, ScanErrorKind::InvalidNumber);
    assert_eq!(scan_error("\n12_").line, 2);
    assert_eq!(kinds("12;"), vec![TokenType::Number, TokenType::Semicolon, TokenType::Eof]);
    assert_eq!(kinds("1+2"), vec![TokenType::Number, TokenType::Plus, TokenType::Number, TokenType::Eof]);
}

#[test]
fn strings_carry_their_body() {
    let tokens = scan_tokens("\"hello\" \"\" \"two\nlines\" after", &number_of).unwrap();
    assert_eq!(
        *tokens[0],
        Token::new(
            TokenType::String,
            "\"hello\"".to_string(),
            Object::String("hello".to_string()),
            1
        )
    );
    assert_eq!(tokens[1].literal, Object::String(String::new()));
    assert_eq!(tokens[1].lexeme, "\"\"");
    assert_eq!(tokens[2].literal, Object::String("two\nlines".to_string()));
    assert_eq!(tokens[2].line, 2);
    assert_eq!(tokens[3].line, 2);
    let tokens = scan_tokens("\"größe ☃\"", &number_of).unwrap();
    assert_eq!(tokens[0].literal, Object::String("größe ☃".to_string()));
}

#[test]
fn unterminated_string() {
    assert_eq!(scan_error("\"open"), ScanError { kind: ScanErrorKind::UnterminatedString, line: 1 });
    assert_eq!(
        scan_error("1;\n\"open\n\n"),
        ScanError { kind: ScanErrorKind::UnterminatedString, line: 4 }
    );
    assert_eq!(scan_error("\"").kind, ScanErrorKind::UnterminatedString);
}

#[test]
fn unknown_character() {
    assert_eq!(scan_error("@"), ScanError { kind: ScanErrorKind::UnknownCharacter, line: 1 });
    assert_eq!(scan_error("a\n\n#"), ScanError { kind: ScanErrorKind::UnknownCharacter, line: 3 });
    assert_eq!(scan_error("é").kind, ScanErrorKind::UnknownCharacter);
    assert_eq!(scan_error("a | b").kind, ScanErrorKind::UnknownCharacter);
}

#[test]
fn comments_and_blanks_give_no_tokens() {
    assert_eq!(kinds("// nothing here"), vec![TokenType::Eof]);
    assert_eq!(kinds("a // b\nc"), vec![TokenType::Identifier, TokenType::Identifier, TokenType::Eof]);
    assert_eq!(kinds(" \t\r\n "), vec![TokenType::Eof]);
    assert_eq!(kinds("a / b"), vec![TokenType::Identifier, TokenType::Slash, TokenType::Identifier, TokenType::Eof]);
    assert_eq!(kinds("/"), vec![TokenType::Slash, TokenType::Eof]);
    let tokens = scan_tokens("// one\n// two\nx", &number_of).unwrap();
    assert_eq!(tokens[0].line, 3);
}

#[test]
fn lines_are_counted() {
    let tokens = scan_tokens("a\nb\n\nc d", &number_of).unwrap();
    let lines: Vec<usize> = tokens.iter().map(|token| token.line).collect();
    assert_eq!(lines, vec![1, 2, 4, 4, 4]);
}

#[test]
fn the_scanner_steps_through_the_text() {
    assert!(Scanner::is_digit('0') && Scanner::is_digit('9') && !Scanner::is_digit('a'));
    assert!(!Scanner::is_digit('/') && !Scanner::is_digit(':'));
    assert!(Scanner::is_alpha('a') && Scanner::is_alpha('z') && Scanner::is_alpha('A'));
    assert!(Scanner::is_alpha('Z') && Scanner::is_alpha('_') && !Scanner::is_alpha('1'));
    assert!(!Scanner::is_alpha('`') && !Scanner::is_alpha('{') && !Scanner::is_alpha('@'));
    assert!(!Scanner::is_alpha('[') && !Scanner::is_alpha('é'));
    assert!(Scanner::is_alpha_numeric('7') && Scanner::is_alpha_numeric('_'));
    assert!(!Scanner::is_alpha_numeric(' '));

    let mut scanner = Scanner::new(characters("ab="));
    assert_eq!((scanner.start, scanner.current, scanner.line), (0, 0, 1));
    assert!(!scanner.is_at_end());
    assert_eq!(scanner.peek(), Some('a'));
    assert_eq!(scanner.peek_at(1), Some('b'));
    assert_eq!(scanner.peek_at(3), None);
    assert_eq!(scanner.advance(), 'a');
    assert_eq!(scanner.previous(), 'a');
    assert!(!scanner.find('='));
    assert_eq!(scanner.current, 1);
    assert!(scanner.find('b'));
    assert!(scanner.find('='));
    assert_eq!(scanner.current, 3);
    assert!(scanner.is_at_end());
    assert_eq!(scanner.peek(), None);
    assert!(!scanner.find('='));
    assert_eq!(scanner.previous(), '=');
    assert_eq!(scanner.eof(), Token::new(TokenType::Eof, String::new(), Object::Nil, 1));
}

#[test]
fn one_step_of_the_scanner() {
    let mut scanner = Scanner::new(characters("var x\n= \"s\";"));
    let mut kinds = Vec::new();
    while !scanner.is_at_end() {
        if let Some(token) = scanner.scan_token().unwrap() {
            assert_eq!(token.lexeme.chars().count(), scanner.current - scanner.start);
            kinds.push((token.token_type, token.line));
        }
    }
    assert_eq!(
        kinds,
        vec![
            (TokenType::Var, 1),
            (TokenType::Identifier, 1),
            (TokenType::Equal, 2),
            (TokenType::String, 2),
            (TokenType::Semicolon, 2),
        ]
    );
}

#[test]
fn tokens_are_shared() {
    let tokens: Vec<Rc<Token>> = scan_tokens("a", &number_of).unwrap();
    let again = tokens[0].clone();
    assert_eq!(again.lexeme, "a");
    assert_eq!(Rc::strong_count(&tokens[0]), 2);
}
