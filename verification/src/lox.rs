//! From source text to a machine that is ready to run.

use vstd::prelude::*;
use std::rc::Rc;
use crate::interpreter::{interpret, Interpreter, InterpreterView};
use crate::message::{decimal, reported};
use crate::parser::{parse, parsed, ParseError};
use crate::resolver::{resolved, ResolveError};
use crate::scanner::{characters, filled, is_number_lexeme, scan, scan_tokens, ScanError};
use crate::stmt::{stmts_view, Stmt};
use crate::token::Token;

verus! {

/// Whether `marker` stands in `text` at `i`.
pub open spec fn occurs_at(text: Seq<char>, marker: Seq<char>, i: int) -> bool {
    0 <= i && i + marker.len() <= text.len() && text.subrange(i, i + marker.len()) == marker
}

/// Whether `i` is the first place at which `marker` stands in `text`.
pub open spec fn first_occurrence(text: Seq<char>, marker: Seq<char>, i: int) -> bool {
    occurs_at(text, marker, i) && forall|j: int| 0 <= j < i ==> !occurs_at(text, marker, j)
}

/// The part of `text` before the first `marker`, or all of it if there is
/// none.
pub open spec fn before(text: Seq<char>, marker: Seq<char>) -> Seq<char> {
    if exists|i: int| first_occurrence(text, marker, i) {
        text.subrange(0, choose|i: int| first_occurrence(text, marker, i))
    } else {
        text
    }
}

/// The source in a script: what stands before the line that announces the
/// expected output and before the line that announces the expected error.
pub open spec fn source(text: Seq<char>) -> Seq<char> {
    before(before(text, "------ output ------"@), "------ error ------"@)
}

fn matches_at(text: &Vec<char>, marker: &Vec<char>, i: usize) -> (r: bool)
    ensures
        r == occurs_at(text@, marker@, i as int),
{
    if marker.len() > text.len() || i > text.len() - marker.len() {
        return false;
    }
    let mut k: usize = 0;
    while k < marker.len()
        invariant
            k <= marker@.len(),
            i + marker@.len() <= text@.len() <= usize::MAX,
            forall|h: int| 0 <= h < k ==> text@[i + h] == marker@[h],
        decreases marker@.len() - k,
    {
        if text[i + k] != marker[k] {
            assert(text@.subrange(i as int, i + marker@.len())[k as int] != marker@[k as int]);
            return false;
        }
        k += 1;
    }
    assert(text@.subrange(i as int, i + marker@.len()) =~= marker@);
    true
}

/// The part of `code` before the first `marker`.
fn cut<'a>(code: &'a str, marker: &str) -> (r: &'a str)
    ensures
        r@ == before(code@, marker@),
{
    let text = characters(code);
    let pattern = characters(marker);
    let mut i: usize = 0;
    while i < text.len()
        invariant
            text@ == code@,
            pattern@ == marker@,
            forall|j: int| 0 <= j < i ==> !occurs_at(text@, pattern@, j),
        decreases text@.len() - i,
    {
        if matches_at(&text, &pattern, i) {
            proof {
                assert(first_occurrence(code@, marker@, i as int));
                let chosen = choose|h: int| first_occurrence(code@, marker@, h);
                assert(chosen == i) by {
                    if chosen < i {
                        assert(!occurs_at(code@, marker@, chosen));
                    } else if i < chosen {
                        assert(!occurs_at(code@, marker@, i as int));
                    }
                };
            }
            return code.substring_char(0, i);
        }
        i += 1;
    }
    if matches_at(&text, &pattern, i) {
        proof {
            assert(first_occurrence(code@, marker@, i as int));
            let chosen = choose|h: int| first_occurrence(code@, marker@, h);
            assert(chosen == i) by {
                if chosen < i {
                    assert(!occurs_at(code@, marker@, chosen));
                } else if i < chosen {
                    assert(!occurs_at(code@, marker@, i as int));
                }
            };
        }
        return code.substring_char(0, i);
    }
    proof {
        assert forall|h: int| !first_occurrence(code@, marker@, h) by {
            if first_occurrence(code@, marker@, h) {
                assert(occurs_at(code@, marker@, h));
                assert(0 <= h <= i);
            }
        }
    }
    code
}

/// The source in a script: a script may end with a line that announces
/// the output or the error that is expected of it, and what follows that
/// line is no part of the program.
pub fn skip_out(code: &str) -> (r: &str)
    ensures
        r@ == source(code@),
{
    cut(cut(code, "------ output ------"), "------ error ------")
}

/// Why a text is no program.
#[derive(Debug, Clone)]
pub enum LoxError {
    Scan(ScanError),
    Parse(ParseError),
    Resolve(ResolveError),
}

/// Whether `tokens` are the tokens of `code`, with the values of the
/// numbers filled in by `to_number`.
pub open spec fn scans_to<F: Fn(&String) -> u64>(
    code: Seq<char>,
    to_number: &F,
    tokens: Vec<Rc<Token>>,
) -> bool {
    scan(code) matches Ok(shapes) && tokens@.len() == shapes.len() && forall|i: int|
        0 <= i < shapes.len() ==> filled(to_number, *(#[trigger] tokens@[i]), shapes[i])
}

/// Whether `r` is what becomes of a text whose tokens are `tokens` and
/// whose statements, if the tokens parse, are `statements`: the error of
/// the parser or of the resolver, or else the machine loaded with the
/// statements and the distances that the resolver found.
pub open spec fn prepared(
    tokens: Vec<Rc<Token>>,
    statements: Vec<Rc<Stmt>>,
    r: Result<Interpreter, LoxError>,
) -> bool {
    match parsed(tokens.deep_view()) {
        Err(error) => r matches Err(LoxError::Parse(e)) && e.deep_view() == error,
        Ok(trees) => stmts_view(statements@) == trees && match resolved(statements@) {
            Err(error) => r matches Err(LoxError::Resolve(e)) && e.deep_view() == error,
            Ok(locals) => r matches Ok(machine) && machine.deep_view() == InterpreterView::loaded(
                locals,
                statements@,
            ),
        },
    }
}

/// Scans, parses and resolves a text and loads the machine with the
/// program, ready for its first step. `to_number` gives the value of each
/// number in the text.
pub fn run_code<F: Fn(&String) -> u64>(code: &str, to_number: &F) -> (r: Result<
    Interpreter,
    LoxError,
>)
    requires
        forall|lexeme: &String| is_number_lexeme(lexeme@) ==> to_number.requires((lexeme,)),
    ensures
        match scan(code@) {
            Err(error) => r matches Err(LoxError::Scan(e)) && e == error,
            Ok(_) => exists|tokens: Vec<Rc<Token>>, statements: Vec<Rc<Stmt>>|
                scans_to(code@, to_number, tokens) && #[trigger] prepared(tokens, statements, r),
        },
{
    let tokens = match scan_tokens(code, to_number) {
        Ok(tokens) => tokens,
        Err(error) => {
            return Err(LoxError::Scan(error));
        },
    };
    let ghost scanned = tokens;
    let statements = match parse(tokens) {
        Ok(statements) => statements,
        Err(error) => {
            let r = Err(LoxError::Parse(error));
            assert(prepared(scanned, arbitrary(), r));
            return r;
        },
    };
    let ghost parsed = statements;
    let r = match interpret(statements) {
        Ok(machine) => Ok(machine),
        Err(error) => Err(LoxError::Resolve(error)),
    };
    assert(prepared(scanned, parsed, r));
    r
}

impl LoxError {
    /// The error as a line of text.
    pub fn report(&self) -> (r: String)
        ensures
            r@ == match *self {
                LoxError::Scan(error) => "[line "@ + decimal(error.line as nat) + "] : "@
                    + error.kind.wording(),
                LoxError::Parse(error) => reported(
                    error.line,
                    error.lexeme@,
                    error.message.wording(),
                ),
                LoxError::Resolve(error) => reported(
                    error.line,
                    error.lexeme@,
                    error.kind.wording(),
                ),
            },
    {
        match self {
            LoxError::Scan(error) => error.report(),
            LoxError::Parse(error) => error.report(),
            LoxError::Resolve(error) => error.report(),
        }
    }
}

} // verus!
