//! How errors are written: `[line N] <TOKEN> : MESSAGE`.

use vstd::prelude::*;

verus! {

/// The digit for a number below ten.
pub open spec fn digit(d: nat) -> char {
    if d == 0 {
        '0'
    } else if d == 1 {
        '1'
    } else if d == 2 {
        '2'
    } else if d == 3 {
        '3'
    } else if d == 4 {
        '4'
    } else if d == 5 {
        '5'
    } else if d == 6 {
        '6'
    } else if d == 7 {
        '7'
    } else if d == 8 {
        '8'
    } else {
        '9'
    }
}

/// The number written in decimal digits, without leading zeros.
pub open spec fn decimal(n: nat) -> Seq<char>
    decreases n,
{
    if n < 10 {
        seq![digit(n)]
    } else {
        decimal(n / 10).push(digit(n % 10))
    }
}

/// A line that reports an error at a token: the line of the token, its
/// text and what is wrong.
pub open spec fn reported(line: usize, lexeme: Seq<char>, message: Seq<char>) -> Seq<char> {
    "[line "@ + decimal(line as nat) + "] <"@ + lexeme + "> : "@ + message
}

fn to_digit(d: usize) -> (r: char)
    requires
        d < 10,
    ensures
        r == digit(d as nat),
{
    if d == 0 {
        '0'
    } else if d == 1 {
        '1'
    } else if d == 2 {
        '2'
    } else if d == 3 {
        '3'
    } else if d == 4 {
        '4'
    } else if d == 5 {
        '5'
    } else if d == 6 {
        '6'
    } else if d == 7 {
        '7'
    } else if d == 8 {
        '8'
    } else {
        '9'
    }
}

/// Writes a number in decimal digits.
pub fn to_decimal(n: usize) -> (r: String)
    ensures
        r@ == decimal(n as nat),
    decreases n,
{
    if n < 10 {
        let mut r = String::new();
        r.push(to_digit(n));
        assert(r@ =~= seq![digit(n as nat)]);
        r
    } else {
        let mut r = to_decimal(n / 10);
        r.push(to_digit(n % 10));
        r
    }
}

/// Writes the line that reports an error at a token.
pub fn report(line: usize, lexeme: &String, message: String) -> (r: String)
    ensures
        r@ == reported(line, lexeme@, message@),
{
    String::from_str("[line ").concat(to_decimal(line).as_str()).concat("] <").concat(
        lexeme.as_str(),
    ).concat("> : ").concat(message.as_str())
}

} // verus!
