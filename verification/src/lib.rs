//! A tree-walking interpreter for the Lox scripting language: C-like syntax,
//! numbers, strings, booleans and nil, first-class functions with closures,
//! classes with single inheritance, and `print`.
//!
//! Source text is scanned into tokens ([`scanner`]), parsed into statements
//! ([`parser`]), resolved into a table of scope distances ([`resolver`]) and
//! then executed by an abstract machine ([`interpreter`]) that takes one step
//! at a time. [`lox::run_code`] does the first three and hands back the
//! machine, ready for its first step.
//!
//! The library never touches floating point itself. A number is the 64-bit
//! pattern of an IEEE-754 double. What can be read off the pattern (sign,
//! order, equality) is decided here, in [`number`]; what needs rounding is
//! asked of whoever drives the machine:
//!
//! * the scanner takes a function that gives the value of a number from
//!   its lexeme;
//! * after each step the machine says what it wants done
//!   ([`interpreter::Action`]): nothing, a line printed, a number printed, or
//!   a question answered ([`interpreter::Request`]): the result of an
//!   arithmetic operation, or the time of the clock as a double. The
//!   answer goes into the next step.
//!
//! So a driver is a loop around [`interpreter::Interpreter::step`] that
//! prints, computes and stops as it is told.
//!
//! Scopes, functions, classes and instances live in stores ([`heap`]) and
//! refer to each other by their place there, which is what lets closures
//! share and change one scope. The module [`semantics`] says in mathematical
//! terms what a step does, [`soundness`] what holds of every state that the
//! machine reaches (nothing refers to a place outside the stores, every
//! block leads back to the scope it was entered from, and every value and
//! every finished statement finds a frame that waits for it), [`laws`]
//! what follows for programs, and [`replay`] that a block which leaves the
//! outside alone does the same when it is run again.

pub mod class;
pub mod environment;
pub mod expr;
pub mod function;
pub mod heap;
pub mod instance;
pub mod interpreter;
pub mod laws;
pub mod lox;
pub mod message;
pub mod number;
pub mod object;
pub mod parser;
pub mod replay;
pub mod resolver;
pub mod scanner;
pub mod semantics;
pub mod soundness;
pub mod stmt;
pub mod token;
