//! The scanner: from characters to tokens.

use vstd::prelude::*;
use std::rc::Rc;
use crate::message::{decimal, to_decimal};
use crate::object::{Object, ObjectView};
use crate::token::{Token, TokenType, TokenView};

verus! {

/// `std::string::String::push` appends the character to the end of the text.
pub assume_specification[ std::string::String::push ](s: &mut std::string::String, ch: char)
    ensures
        final(s)@ == old(s)@.push(ch),
;

/// What the scanner refuses.
#[derive(Debug, Clone, Copy, PartialEq, Eq, Structural)]
pub enum ScanErrorKind {
    UnterminatedString,
    InvalidNumber,
    UnknownCharacter,
}

/// An error of the scanner and the line it was noticed on.
#[derive(Debug, Clone, Copy, PartialEq, Eq, Structural)]
pub struct ScanError {
    pub kind: ScanErrorKind,
    pub line: usize,
}

/// `0` to `9`.
pub open spec fn is_digit(c: char) -> bool {
    '0' <= c <= '9'
}

/// A letter of the alphabet of 26, or an underscore.
pub open spec fn is_alpha(c: char) -> bool {
    ('a' <= c <= 'z') || ('A' <= c <= 'Z') || c == '_'
}

/// What a name can hold after its first character.
pub open spec fn is_alpha_numeric(c: char) -> bool {
    is_alpha(c) || is_digit(c)
}

/// A stretch of characters of one kind that the scanner reads in one go.
#[derive(Debug, Clone, Copy, PartialEq, Eq, Structural)]
pub enum Run {
    /// Digits.
    Digits,
    /// Letters, digits and underscores.
    Word,
    /// All but the end of the line.
    Comment,
}

/// Whether the character is of the run.
pub open spec fn belongs(run: Run, c: char) -> bool {
    match run {
        Run::Digits => is_digit(c),
        Run::Word => is_alpha_numeric(c),
        Run::Comment => c != '\n',
    }
}

/// The place of the first character from `from` on that is not of the run,
/// or the end of the text.
pub open spec fn run_end(chars: Seq<char>, from: int, run: Run) -> int
    decreases chars.len() - from,
{
    if from < 0 || from >= chars.len() || !belongs(run, chars[from]) {
        from
    } else {
        run_end(chars, from + 1, run)
    }
}

/// The line after `line`. The count stops at the largest number there is.
pub open spec fn bump(line: usize) -> usize {
    if line < usize::MAX {
        (line + 1) as usize
    } else {
        line
    }
}

/// Where a string ends: whether a closing quote was found, the place after
/// it (or the end of the text) and the line there.
pub struct Quote {
    pub closed: bool,
    pub end: int,
    pub line: usize,
}

/// Looks for the closing quote from `from` on, counting lines on the way.
pub open spec fn string_end(chars: Seq<char>, from: int, line: usize) -> Quote
    decreases chars.len() - from,
{
    if from < 0 || from >= chars.len() {
        Quote { closed: false, end: from, line }
    } else if chars[from] == '"' {
        Quote { closed: true, end: from + 1, line }
    } else {
        string_end(
            chars,
            from + 1,
            if chars[from] == '\n' {
                bump(line)
            } else {
                line
            },
        )
    }
}

/// Where a number that has digits up to `from` ends: after the digits and,
/// if a point and a digit follow them, after the digits of the fraction.
pub open spec fn number_end(chars: Seq<char>, from: int) -> int {
    let whole = run_end(chars, from, Run::Digits);
    if whole + 1 < chars.len() && chars[whole] == '.' && is_digit(chars[whole + 1]) {
        run_end(chars, whole + 1, Run::Digits)
    } else {
        whole
    }
}

/// The kind of token that a word is: a keyword, or else an identifier.
pub open spec fn keyword(word: Seq<char>) -> TokenType {
    if word == "and"@ {
        TokenType::And
    } else if word == "class"@ {
        TokenType::Class
    } else if word == "else"@ {
        TokenType::Else
    } else if word == "false"@ {
        TokenType::False
    } else if word == "for"@ {
        TokenType::For
    } else if word == "fun"@ {
        TokenType::Fun
    } else if word == "if"@ {
        TokenType::If
    } else if word == "nil"@ {
        TokenType::Nil
    } else if word == "or"@ {
        TokenType::Or
    } else if word == "print"@ {
        TokenType::Print
    } else if word == "return"@ {
        TokenType::Return
    } else if word == "super"@ {
        TokenType::Super
    } else if word == "this"@ {
        TokenType::This
    } else if word == "true"@ {
        TokenType::True
    } else if word == "var"@ {
        TokenType::Var
    } else if word == "while"@ {
        TokenType::While
    } else {
        TokenType::Identifier
    }
}

/// The token of the given kind that spans the characters from `start` to
/// `end`. A string carries its body, without the quotes. The value of a
/// number is not known to the scanner and is filled in afterwards.
pub open spec fn token_at(chars: Seq<char>, start: int, end: int, kind: TokenType, line: usize)
    -> TokenView {
    TokenView {
        token_type: kind,
        lexeme: chars.subrange(start, end),
        literal: if kind == TokenType::String {
            ObjectView::String(chars.subrange(start + 1, end - 1))
        } else {
            ObjectView::Nil
        },
        line,
    }
}

/// The token that ends every list of tokens.
pub open spec fn eof_at(line: usize) -> TokenView {
    TokenView {
        token_type: TokenType::Eof,
        lexeme: Seq::empty(),
        literal: ObjectView::Nil,
        line,
    }
}

/// What one step of the scanner gives: a token, nothing (for blanks and
/// comments) or an error, and where the scanner stands afterwards.
pub struct Scan {
    pub outcome: Result<Option<TokenView>, ScanError>,
    pub current: int,
    pub line: usize,
}

/// The step that gives the token of the given kind from `start` to `end`.
pub open spec fn found(chars: Seq<char>, start: int, end: int, kind: TokenType, line: usize)
    -> Scan {
    Scan { outcome: Ok(Some(token_at(chars, start, end, kind, line))), current: end, line }
}

/// The step for an operator of one character that `=` may follow.
pub open spec fn operator(
    chars: Seq<char>,
    start: int,
    line: usize,
    with_equal: TokenType,
    alone: TokenType,
) -> Scan {
    if start + 1 < chars.len() && chars[start + 1] == '=' {
        found(chars, start, start + 2, with_equal, line)
    } else {
        found(chars, start, start + 1, alone, line)
    }
}

/// One step of the scanner from `start`, which lies inside the text.
pub open spec fn scan_token(chars: Seq<char>, start: int, line: usize) -> Scan {
    let c = chars[start];
    let next = start + 1;
    if c == '(' {
        found(chars, start, next, TokenType::LeftParen, line)
    } else if c == ')' {
        found(chars, start, next, TokenType::RightParen, line)
    } else if c == '{' {
        found(chars, start, next, TokenType::LeftBrace, line)
    } else if c == '}' {
        found(chars, start, next, TokenType::RightBrace, line)
    } else if c == '+' {
        found(chars, start, next, TokenType::Plus, line)
    } else if c == '-' {
        found(chars, start, next, TokenType::Minus, line)
    } else if c == '*' {
        found(chars, start, next, TokenType::Star, line)
    } else if c == '/' {
        if next < chars.len() && chars[next] == '/' {
            Scan { outcome: Ok(None), current: run_end(chars, next + 1, Run::Comment), line }
        } else {
            found(chars, start, next, TokenType::Slash, line)
        }
    } else if c == '!' {
        operator(chars, start, line, TokenType::BangEqual, TokenType::Bang)
    } else if c == '=' {
        operator(chars, start, line, TokenType::EqualEqual, TokenType::Equal)
    } else if c == '>' {
        operator(chars, start, line, TokenType::GreaterEqual, TokenType::Greater)
    } else if c == '<' {
        operator(chars, start, line, TokenType::LessEqual, TokenType::Less)
    } else if c == '.' {
        found(chars, start, next, TokenType::Dot, line)
    } else if c == ',' {
        found(chars, start, next, TokenType::Comma, line)
    } else if c == ';' {
        found(chars, start, next, TokenType::Semicolon, line)
    } else if c == ' ' || c == '\r' || c == '\t' {
        Scan { outcome: Ok(None), current: next, line }
    } else if c == '\n' {
        Scan { outcome: Ok(None), current: next, line: bump(line) }
    } else if c == '"' {
        let quote = string_end(chars, next, line);
        if quote.closed {
            found(chars, start, quote.end, TokenType::String, quote.line)
        } else {
            Scan {
                outcome: Err(
                    ScanError { kind: ScanErrorKind::UnterminatedString, line: quote.line },
                ),
                current: quote.end,
                line: quote.line,
            }
        }
    } else if is_digit(c) {
        let end = number_end(chars, next);
        if end < chars.len() && (is_alpha(chars[end]) || chars[end] == '.') {
            Scan {
                outcome: Err(ScanError { kind: ScanErrorKind::InvalidNumber, line }),
                current: end,
                line,
            }
        } else {
            found(chars, start, end, TokenType::Number, line)
        }
    } else if is_alpha(c) {
        let end = run_end(chars, next, Run::Word);
        found(chars, start, end, keyword(chars.subrange(start, end)), line)
    } else {
        Scan {
            outcome: Err(ScanError { kind: ScanErrorKind::UnknownCharacter, line }),
            current: next,
            line,
        }
    }
}

/// A run ends at or after its start, inside the text.
pub proof fn lemma_run_end(chars: Seq<char>, from: int, run: Run)
    requires
        0 <= from <= chars.len(),
    ensures
        from <= run_end(chars, from, run) <= chars.len(),
    decreases chars.len() - from,
{
    if from < chars.len() && belongs(run, chars[from]) {
        lemma_run_end(chars, from + 1, run);
    }
}

/// The search for a closing quote ends at or after its start, inside the
/// text, and after the quote if it finds one.
pub proof fn lemma_string_end(chars: Seq<char>, from: int, line: usize)
    requires
        0 <= from <= chars.len(),
    ensures
        from <= string_end(chars, from, line).end <= chars.len(),
        string_end(chars, from, line).closed ==> from < string_end(chars, from, line).end,
    decreases chars.len() - from,
{
    if from < chars.len() && chars[from] != '"' {
        lemma_string_end(
            chars,
            from + 1,
            if chars[from] == '\n' {
                bump(line)
            } else {
                line
            },
        );
    }
}

/// A number ends at or after its start, inside the text.
pub proof fn lemma_number_end(chars: Seq<char>, from: int)
    requires
        0 <= from <= chars.len(),
    ensures
        from <= number_end(chars, from) <= chars.len(),
{
    lemma_run_end(chars, from, Run::Digits);
    let whole = run_end(chars, from, Run::Digits);
    if whole + 1 < chars.len() {
        lemma_run_end(chars, whole + 1, Run::Digits);
    }
}

/// Every step of the scanner moves on, and stays inside the text.
pub proof fn lemma_scan_advances(chars: Seq<char>, start: int, line: usize)
    requires
        0 <= start < chars.len(),
    ensures
        start < scan_token(chars, start, line).current <= chars.len(),
{
    lemma_run_end(chars, start + 1, Run::Word);
    lemma_number_end(chars, start + 1);
    lemma_string_end(chars, start + 1, line);
    if start + 2 <= chars.len() {
        lemma_run_end(chars, start + 2, Run::Comment);
    }
}

/// The tokens of the text from `current` on, after those in `tokens`, or
/// the first error. The list ends with the token for the end of the text.
pub open spec fn scan_from(chars: Seq<char>, current: int, line: usize, tokens: Seq<TokenView>)
    -> Result<Seq<TokenView>, ScanError>
    decreases chars.len() - current,
{
    if current < 0 || current >= chars.len() {
        Ok(tokens.push(eof_at(line)))
    } else {
        let step = scan_token(chars, current, line);
        proof {
            lemma_scan_advances(chars, current, line);
        }
        match step.outcome {
            Ok(Some(token)) => scan_from(chars, step.current, step.line, tokens.push(token)),
            Ok(None) => scan_from(chars, step.current, step.line, tokens),
            Err(error) => Err(error),
        }
    }
}

/// The tokens of a text. Lines count from 1.
pub open spec fn scan(chars: Seq<char>) -> Result<Seq<TokenView>, ScanError> {
    scan_from(chars, 0, 1, Seq::empty())
}

/// What the result of a step stands for.
pub open spec fn scanned(r: Result<Option<Token>, ScanError>) -> Result<
    Option<TokenView>,
    ScanError,
> {
    match r {
        Ok(Some(token)) => Ok(Some(token.deep_view())),
        Ok(None) => Ok(None),
        Err(error) => Err(error),
    }
}

/// The characters of a text, one by one.
pub fn characters(code: &str) -> (r: Vec<char>)
    ensures
        r@ == code@,
{
    let mut r: Vec<char> = Vec::new();
    for c in it: code.chars()
        invariant
            r@ == it.seq().take(it.index() as int),
            it.seq() == code@,
    {
        r.push(c);
    }
    r
}

/// Whether the word is the given keyword.
fn is_word(word: &String, keyword: &str) -> (r: bool)
    ensures
        r == (word@ == keyword@),
{
    *word == String::from_str(keyword)
}

/// The kind of token that a word is.
fn kind_of(word: &String) -> (r: TokenType)
    ensures
        r == keyword(word@),
{
    if is_word(word, "and") {
        TokenType::And
    } else if is_word(word, "class") {
        TokenType::Class
    } else if is_word(word, "else") {
        TokenType::Else
    } else if is_word(word, "false") {
        TokenType::False
    } else if is_word(word, "for") {
        TokenType::For
    } else if is_word(word, "fun") {
        TokenType::Fun
    } else if is_word(word, "if") {
        TokenType::If
    } else if is_word(word, "nil") {
        TokenType::Nil
    } else if is_word(word, "or") {
        TokenType::Or
    } else if is_word(word, "print") {
        TokenType::Print
    } else if is_word(word, "return") {
        TokenType::Return
    } else if is_word(word, "super") {
        TokenType::Super
    } else if is_word(word, "this") {
        TokenType::This
    } else if is_word(word, "true") {
        TokenType::True
    } else if is_word(word, "var") {
        TokenType::Var
    } else if is_word(word, "while") {
        TokenType::While
    } else {
        TokenType::Identifier
    }
}

/// A text in memory is no longer than the largest index.
pub proof fn lemma_length_fits(chars: Vec<char>)
    ensures
        chars@.len() <= usize::MAX,
{
    assert(chars.len() == chars@.len());
}

/// Whether the character is of the run.
fn fits(run: Run, c: char) -> (r: bool)
    ensures
        r == belongs(run, c),
{
    match run {
        Run::Digits => Scanner::is_digit(c),
        Run::Word => Scanner::is_alpha_numeric(c),
        Run::Comment => c != '\n',
    }
}

/// The scanner: the text, where the token under way starts, where the
/// scanner stands, and the line it is on.
#[derive(Debug, Clone)]
pub struct Scanner {
    pub chars: Vec<char>,
    pub start: usize,
    pub current: usize,
    pub line: usize,
}

impl Scanner {
    /// Whether the character is a digit.
    pub fn is_digit(c: char) -> (r: bool)
        ensures
            r == is_digit(c),
    {
        c >= '0' && c <= '9'
    }

    /// Whether the character can start a name.
    pub fn is_alpha(c: char) -> (r: bool)
        ensures
            r == is_alpha(c),
    {
        (c >= 'a' && c <= 'z') || (c >= 'A' && c <= 'Z') || c == '_'
    }

    /// Whether the character can stand in a name.
    pub fn is_alpha_numeric(c: char) -> (r: bool)
        ensures
            r == is_alpha_numeric(c),
    {
        Scanner::is_alpha(c) || Scanner::is_digit(c)
    }

    /// The scanner at the start of the text, on line 1.
    pub fn new(chars: Vec<char>) -> (r: Scanner)
        ensures
            r.chars == chars,
            r.start == 0,
            r.current == 0,
            r.line == 1,
    {
        Scanner { chars, start: 0, current: 0, line: 1 }
    }

    /// The token that marks the end of the text.
    pub fn eof(&self) -> (r: Token)
        ensures
            r.deep_view() == eof_at(self.line),
    {
        Token::new(TokenType::Eof, String::new(), Object::Nil, self.line)
    }

    /// Whether the scanner has read all of the text.
    pub fn is_at_end(&self) -> (r: bool)
        ensures
            r == (self.current >= self.chars@.len()),
    {
        self.peek().is_none()
    }

    /// Steps over the character the scanner stands on and gives it.
    pub fn advance(&mut self) -> (r: char)
        requires
            old(self).current < old(self).chars@.len(),
        ensures
            r == old(self).chars@[old(self).current as int],
            *final(self) == (Scanner { current: (old(self).current + 1) as usize, ..*old(self) }),
    {
        proof {
            lemma_length_fits(self.chars);
        }
        self.current += 1;
        self.previous()
    }

    /// Steps over the character the scanner stands on if it is `c`, and says
    /// whether it was.
    pub fn find(&mut self, c: char) -> (r: bool)
        ensures
            r == (old(self).current < old(self).chars@.len() && old(self).chars@[old(
                self,
            ).current as int] == c),
            *final(self) == (Scanner {
                current: if r {
                    (old(self).current + 1) as usize
                } else {
                    old(self).current
                },
                ..*old(self)
            }),
    {
        proof {
            lemma_length_fits(self.chars);
        }
        match self.peek() {
            Some(next) => {
                if next == c {
                    self.current += 1;
                    true
                } else {
                    false
                }
            },
            None => false,
        }
    }

    /// The character at `idx`, if the text is that long.
    pub fn peek_at(&self, idx: usize) -> (r: Option<char>)
        ensures
            r == (if idx < self.chars@.len() {
                Some(self.chars@[idx as int])
            } else {
                None
            }),
    {
        if idx < self.chars.len() {
            Some(self.chars[idx])
        } else {
            None
        }
    }

    /// The character the scanner stands on, if it is not at the end.
    pub fn peek(&self) -> (r: Option<char>)
        ensures
            r == (if self.current < self.chars@.len() {
                Some(self.chars@[self.current as int])
            } else {
                None
            }),
    {
        self.peek_at(self.current)
    }

    /// The character before the one the scanner stands on.
    pub fn previous(&self) -> (r: char)
        requires
            0 < self.current <= self.chars@.len(),
        ensures
            r == self.chars@[self.current - 1],
    {
        self.chars[self.current - 1]
    }

    /// The characters from `from` to `to` as text.
    fn text(&self, from: usize, to: usize) -> (r: String)
        requires
            from <= to <= self.chars@.len(),
        ensures
            r@ == self.chars@.subrange(from as int, to as int),
    {
        let mut r = String::new();
        let mut i = from;
        while i < to
            invariant
                from <= i <= to <= self.chars@.len(),
                r@ == self.chars@.subrange(from as int, i as int),
            decreases to - i,
        {
            r.push(self.chars[i]);
            assert(self.chars@.subrange(from as int, i as int).push(self.chars@[i as int])
                =~= self.chars@.subrange(from as int, i + 1));
            i += 1;
        }
        r
    }

    /// The token of the given kind that ends where the scanner stands.
    fn token(&self, kind: TokenType) -> (r: Token)
        requires
            self.start <= self.current <= self.chars@.len(),
            kind == TokenType::String ==> self.start + 2 <= self.current,
        ensures
            r.deep_view() == token_at(
                self.chars@,
                self.start as int,
                self.current as int,
                kind,
                self.line,
            ),
    {
        let lexeme = self.text(self.start, self.current);
        let literal = match kind {
            TokenType::String => Object::String(self.text(self.start + 1, self.current - 1)),
            _ => Object::Nil,
        };
        Token::new(kind, lexeme, literal, self.line)
    }

    /// Steps over the characters of the run.
    fn skip(&mut self, run: Run)
        requires
            old(self).current <= old(self).chars@.len(),
        ensures
            *final(self) == (Scanner {
                current: run_end(old(self).chars@, old(self).current as int, run) as usize,
                ..*old(self)
            }),
            old(self).current <= final(self).current <= old(self).chars@.len(),
            final(self).current == run_end(old(self).chars@, old(self).current as int, run),
    {
        proof {
            lemma_length_fits(self.chars);
        }
        while self.current < self.chars.len() && fits(run, self.chars[self.current])
            invariant
                old(self).current <= self.current <= self.chars@.len(),
                *self == (Scanner { current: self.current, ..*old(self) }),
                run_end(self.chars@, old(self).current as int, run) == run_end(
                    self.chars@,
                    self.current as int,
                    run,
                ),
            decreases self.chars@.len() - self.current,
        {
            self.current += 1;
        }
    }

    /// Reads the rest of a string, whose opening quote has been read.
    fn string(&mut self) -> (r: Result<Option<Token>, ScanError>)
        requires
            old(self).start < old(self).current <= old(self).chars@.len(),
        ensures
            ({
                let quote = string_end(old(self).chars@, old(self).current as int, old(self).line);
                &&& *final(self) == (Scanner {
                    current: quote.end as usize,
                    line: quote.line,
                    ..*old(self)
                })
                &&& final(self).current == quote.end
                &&& scanned(r) == if quote.closed {
                    Ok::<Option<TokenView>, ScanError>(
                        Some(
                            token_at(
                                old(self).chars@,
                                old(self).start as int,
                                quote.end,
                                TokenType::String,
                                quote.line,
                            ),
                        ),
                    )
                } else {
                    Err(ScanError { kind: ScanErrorKind::UnterminatedString, line: quote.line })
                }
            }),
    {
        proof {
            lemma_length_fits(self.chars);
        }
        while self.current < self.chars.len()
            invariant
                old(self).start < old(self).current <= self.current <= self.chars@.len(),
                *self == (Scanner { current: self.current, line: self.line, ..*old(self) }),
                string_end(self.chars@, old(self).current as int, old(self).line) == string_end(
                    self.chars@,
                    self.current as int,
                    self.line,
                ),
            decreases self.chars@.len() - self.current,
        {
            let c = self.chars[self.current];
            self.current += 1;
            if c == '"' {
                return Ok(Some(self.token(TokenType::String)));
            }
            if c == '\n' && self.line < usize::MAX {
                self.line += 1;
            }
        }
        Err(ScanError { kind: ScanErrorKind::UnterminatedString, line: self.line })
    }

    /// Reads the rest of a number, whose first digit has been read.
    fn number(&mut self) -> (r: Result<Option<Token>, ScanError>)
        requires
            old(self).start <= old(self).current <= old(self).chars@.len(),
        ensures
            ({
                let end = number_end(old(self).chars@, old(self).current as int);
                &&& *final(self) == (Scanner { current: end as usize, ..*old(self) })
                &&& final(self).current == end
                &&& scanned(r) == if end < old(self).chars@.len() && (is_alpha(
                    old(self).chars@[end],
                ) || old(self).chars@[end] == '.') {
                    Err::<Option<TokenView>, ScanError>(
                        ScanError { kind: ScanErrorKind::InvalidNumber, line: old(self).line },
                    )
                } else {
                    Ok(
                        Some(
                            token_at(
                                old(self).chars@,
                                old(self).start as int,
                                end,
                                TokenType::Number,
                                old(self).line,
                            ),
                        ),
                    )
                }
            }),
    {
        proof {
            lemma_length_fits(self.chars);
            lemma_number_end(self.chars@, self.current as int);
        }
        self.skip(Run::Digits);
        if self.current < self.chars.len() && self.chars[self.current] == '.' && self.current + 1
            < self.chars.len() && Scanner::is_digit(self.chars[self.current + 1]) {
            self.current += 1;
            self.skip(Run::Digits);
        }
        if self.current < self.chars.len() {
            let c = self.chars[self.current];
            if Scanner::is_alpha(c) || c == '.' {
                return Err(ScanError { kind: ScanErrorKind::InvalidNumber, line: self.line });
            }
        }
        Ok(Some(self.token(TokenType::Number)))
    }

    /// Reads the rest of a word, whose first character has been read, and
    /// tells keywords from identifiers.
    fn identifier(&mut self) -> (r: Result<Option<Token>, ScanError>)
        requires
            old(self).start <= old(self).current <= old(self).chars@.len(),
        ensures
            ({
                let end = run_end(old(self).chars@, old(self).current as int, Run::Word);
                &&& *final(self) == (Scanner { current: end as usize, ..*old(self) })
                &&& final(self).current == end
                &&& scanned(r) == Ok::<Option<TokenView>, ScanError>(
                    Some(
                        token_at(
                            old(self).chars@,
                            old(self).start as int,
                            end,
                            keyword(old(self).chars@.subrange(old(self).start as int, end)),
                            old(self).line,
                        ),
                    ),
                )
            }),
    {
        proof {
            lemma_length_fits(self.chars);
        }
        self.skip(Run::Word);
        let kind = kind_of(&self.text(self.start, self.current));
        Ok(Some(self.token(kind)))
    }

    /// The token of the given kind that is one character long, or two if
    /// `=` follows.
    fn operator(&mut self, with_equal: TokenType, alone: TokenType) -> (r: Result<
        Option<Token>,
        ScanError,
    >)
        requires
            old(self).current == old(self).start + 1,
            old(self).current <= old(self).chars@.len(),
            with_equal != TokenType::String,
            alone != TokenType::String,
        ensures
            ({
                let step = operator(
                    old(self).chars@,
                    old(self).start as int,
                    old(self).line,
                    with_equal,
                    alone,
                );
                &&& *final(self) == (Scanner { current: step.current as usize, ..*old(self) })
                &&& final(self).current == step.current
                &&& scanned(r) == step.outcome
            }),
    {
        proof {
            lemma_length_fits(self.chars);
        }
        if self.find('=') {
            Ok(Some(self.token(with_equal)))
        } else {
            Ok(Some(self.token(alone)))
        }
    }

    /// Reads one token, or the blanks or the comment that the scanner stands
    /// on, which give no token.
    pub fn scan_token(&mut self) -> (r: Result<Option<Token>, ScanError>)
        requires
            old(self).current < old(self).chars@.len(),
        ensures
            ({
                let step = scan_token(old(self).chars@, old(self).current as int, old(self).line);
                &&& *final(self) == (Scanner {
                    start: old(self).current,
                    current: step.current as usize,
                    line: step.line,
                    ..*old(self)
                })
                &&& final(self).current == step.current
                &&& scanned(r) == step.outcome
            }),
    {
        proof {
            lemma_length_fits(self.chars);
            lemma_scan_advances(self.chars@, self.current as int, self.line);
        }
        self.start = self.current;
        let c = self.advance();
        if c == '(' {
            Ok(Some(self.token(TokenType::LeftParen)))
        } else if c == ')' {
            Ok(Some(self.token(TokenType::RightParen)))
        } else if c == '{' {
            Ok(Some(self.token(TokenType::LeftBrace)))
        } else if c == '}' {
            Ok(Some(self.token(TokenType::RightBrace)))
        } else if c == '+' {
            Ok(Some(self.token(TokenType::Plus)))
        } else if c == '-' {
            Ok(Some(self.token(TokenType::Minus)))
        } else if c == '*' {
            Ok(Some(self.token(TokenType::Star)))
        } else if c == '/' {
            if self.find('/') {
                self.skip(Run::Comment);
                Ok(None)
            } else {
                Ok(Some(self.token(TokenType::Slash)))
            }
        } else if c == '!' {
            self.operator(TokenType::BangEqual, TokenType::Bang)
        } else if c == '=' {
            self.operator(TokenType::EqualEqual, TokenType::Equal)
        } else if c == '>' {
            self.operator(TokenType::GreaterEqual, TokenType::Greater)
        } else if c == '<' {
            self.operator(TokenType::LessEqual, TokenType::Less)
        } else if c == '.' {
            Ok(Some(self.token(TokenType::Dot)))
        } else if c == ',' {
            Ok(Some(self.token(TokenType::Comma)))
        } else if c == ';' {
            Ok(Some(self.token(TokenType::Semicolon)))
        } else if c == ' ' || c == '\r' || c == '\t' {
            Ok(None)
        } else if c == '\n' {
            if self.line < usize::MAX {
                self.line += 1;
            }
            Ok(None)
        } else if c == '"' {
            proof {
                lemma_string_end(self.chars@, self.current as int, self.line);
            }
            self.string()
        } else if Scanner::is_digit(c) {
            self.number()
        } else if Scanner::is_alpha(c) {
            self.identifier()
        } else {
            Err(ScanError { kind: ScanErrorKind::UnknownCharacter, line: self.line })
        }
    }
}

/// Whether a text starts like a number: with a digit.
pub open spec fn is_number_lexeme(text: Seq<char>) -> bool {
    text.len() > 0 && is_digit(text[0])
}

/// Whether `token` is the token `shape` with the value of a number filled
/// in by `to_number`.
pub open spec fn filled<F: Fn(&String) -> u64>(to_number: &F, token: Token, shape: TokenView)
    -> bool {
    &&& token.token_type == shape.token_type
    &&& token.lexeme@ == shape.lexeme
    &&& token.line == shape.line
    &&& if shape.token_type == TokenType::Number {
        token.literal matches Object::Number(bits) && to_number.ensures((&token.lexeme,), bits)
    } else {
        token.literal.deep_view() == shape.literal
    }
}

/// The tokens of the text as the scanner reads them, before the values of
/// the numbers are filled in.
pub fn scan_shapes(code: &str) -> (r: Result<Vec<Token>, ScanError>)
    ensures
        match r {
            Ok(tokens) => Ok(tokens.deep_view()),
            Err(error) => Err(error),
        } == scan(code@),
        r matches Ok(tokens) ==> forall|i: int|
            0 <= i < tokens@.len() && (#[trigger] tokens@[i]).token_type == TokenType::Number
                ==> is_number_lexeme(tokens@[i].lexeme@),
{
    let mut scanner = Scanner::new(characters(code));
    let mut tokens: Vec<Token> = Vec::new();
    assert(tokens.deep_view() =~= Seq::<TokenView>::empty());
    while !scanner.is_at_end()
        invariant
            scanner.chars@ == code@,
            scanner.current <= scanner.chars@.len(),
            scan(code@) == scan_from(
                code@,
                scanner.current as int,
                scanner.line,
                tokens.deep_view(),
            ),
            forall|i: int|
                0 <= i < tokens@.len() && (#[trigger] tokens@[i]).token_type == TokenType::Number
                    ==> is_number_lexeme(tokens@[i].lexeme@),
        decreases scanner.chars@.len() - scanner.current,
    {
        proof {
            lemma_scan_advances(scanner.chars@, scanner.current as int, scanner.line);
        }
        let ghost before = tokens.deep_view();
        let ghost start = scanner.current as int;
        match scanner.scan_token() {
            Ok(Some(token)) => {
                assert(token.token_type == TokenType::Number ==> is_number_lexeme(token.lexeme@))
                    by {
                    lemma_run_end(code@, start + 1, Run::Word);
                    lemma_number_end(code@, start + 1);
                    lemma_string_end(code@, start + 1, 0);
                };
                tokens.push(token);
                assert(tokens.deep_view() =~= before.push(token.deep_view()));
            },
            Ok(None) => {},
            Err(error) => {
                return Err(error);
            },
        }
    }
    let ghost before = tokens.deep_view();
    let end = scanner.eof();
    tokens.push(end);
    assert(tokens.deep_view() =~= before.push(end.deep_view()));
    Ok(tokens)
}

/// Scans a text into tokens. The value of each number is what `to_number`
/// makes of its lexeme; everything else is the scanner's own work.
pub fn scan_tokens<F: Fn(&String) -> u64>(code: &str, to_number: &F) -> (r: Result<
    Vec<Rc<Token>>,
    ScanError,
>)
    requires
        forall|lexeme: &String| is_number_lexeme(lexeme@) ==> to_number.requires((lexeme,)),
    ensures
        match scan(code@) {
            Ok(shapes) => r matches Ok(tokens) && tokens@.len() == shapes.len() && forall|i: int|
                0 <= i < shapes.len() ==> filled(to_number, *(#[trigger] tokens@[i]), shapes[i]),
            Err(error) => r == Err::<Vec<Rc<Token>>, ScanError>(error),
        },
{
    let shapes = match scan_shapes(code) {
        Ok(shapes) => shapes,
        Err(error) => {
            return Err(error);
        },
    };
    let mut tokens: Vec<Rc<Token>> = Vec::new();
    let mut i: usize = 0;
    while i < shapes.len()
        invariant
            i <= shapes@.len(),
            tokens@.len() == i,
            forall|lexeme: &String| is_number_lexeme(lexeme@) ==> to_number.requires((lexeme,)),
            forall|j: int|
                0 <= j < shapes@.len() && (#[trigger] shapes@[j]).token_type == TokenType::Number
                    ==> is_number_lexeme(shapes@[j].lexeme@),
            forall|j: int|
                0 <= j < i ==> filled(to_number, *(#[trigger] tokens@[j]), shapes@[j].deep_view()),
        decreases shapes@.len() - i,
    {
        let shape = &shapes[i];
        let lexeme = shape.lexeme.clone();
        let literal = match shape.token_type {
            TokenType::Number => Object::Number(to_number(&lexeme)),
            _ => shape.literal.duplicate(),
        };
        tokens.push(Rc::new(Token::new(shape.token_type, lexeme, literal, shape.line)));
        i += 1;
    }
    Ok(tokens)
}

impl ScanErrorKind {
    /// What the error says.
    pub open spec fn wording(self) -> Seq<char> {
        match self {
            ScanErrorKind::UnterminatedString => "Unterminated string."@,
            ScanErrorKind::InvalidNumber => "Invalid number."@,
            ScanErrorKind::UnknownCharacter => "Unknown character."@,
        }
    }

    /// What the error says, as text.
    pub fn message(&self) -> (r: String)
        ensures
            r@ == self.wording(),
    {
        match self {
            ScanErrorKind::UnterminatedString => String::from_str("Unterminated string."),
            ScanErrorKind::InvalidNumber => String::from_str("Invalid number."),
            ScanErrorKind::UnknownCharacter => String::from_str("Unknown character."),
        }
    }
}

impl ScanError {
    /// The error as a line of text: the line it was noticed on and what it
    /// says.
    pub fn report(&self) -> (r: String)
        ensures
            r@ == "[line "@ + decimal(self.line as nat) + "] : "@ + self.kind.wording(),
    {
        String::from_str("[line ").concat(to_decimal(self.line).as_str()).concat("] : ").concat(
            self.kind.message().as_str(),
        )
    }
}

} // verus!
