//! A small expression language, from text to a running program: a lexer,
//! a parser that gathers every diagnostic of a file, a resolver that interns
//! names and gathers functions, a one-pass generator of bytecode with
//! patched jumps, the binary form of a chunk, and a stack machine.
//!
//! Every function is verified against a contract that says what it
//! computes:
//!
//! - [`span`] and [`read`]: source text, byte ranges of it, and a cursor.
//! - [`token`] and [`lex`]: the token at each position of a text.
//! - [`ast`], [`cursor`], [`grammar`], [`parse`] and [`progress`]: the
//!   syntax tree, the grammar as functions on the parser's state, the
//!   parser, and the proof that parsing moves on.
//! - [`ir`], [`resolve`], [`compile`] and [`interning`]: the resolved
//!   program, the compiler that builds it, and the proof that the table of
//!   identifiers gives each name one index.
//! - [`instruction`], [`executable`], [`listing`] and [`gen`]: opcodes,
//!   chunks and their binary form, and the generator with the layout of the
//!   code that it emits.
//! - [`value`] and [`machine`]: the machine and what each instruction does.
//! - [`meaning`]: what a function's body means, and the proof that the
//!   machine computes it from the generated code.
//!
//! The library does no arithmetic on doubles and reads no files. A double
//! is held as its bit pattern; the machine hands every operation on
//! doubles to its caller, and the compiler takes the values of literals
//! with a fraction and the texts of modules from its caller.

pub mod ast;
pub mod compile;
pub mod cursor;
pub mod executable;
pub mod gen;
pub mod grammar;
pub mod instruction;
pub mod interning;
pub mod ir;
pub mod lex;
pub mod listing;
pub mod machine;
pub mod meaning;
pub mod parse;
pub mod progress;
pub mod read;
pub mod resolve;
pub mod span;
pub mod token;
pub mod value;
