//! A small expression language: source text is split into tokens, the tokens
//! are parsed into expression trees under an operator-precedence grammar, and
//! the trees are reduced against a stack of lexical scopes and a table of
//! user-defined functions.
//!
//! Numbers are IEEE-754 binary64 values. The library never computes with them:
//! it carries each value as its 64-bit pattern, decides everything that depends
//! on scoping, arity and the order of evaluation, and asks its caller for every
//! arithmetic result.
//!
//! - [`tokeniser`] splits a text into the tokens of [`token`]; [`chars`]
//!   holds the character classes and word tables.
//! - [`grammar`] says what is read at each place of a token sequence, and
//!   [`program`] what the whole sequence holds; [`parser`] reads it into the
//!   trees of [`ast`]; [`progress`] shows that reading always moves on.
//! - [`semantics`] says what a tree is worth. [`machine`] is the evaluator
//!   as an abstract machine that stops wherever arithmetic is needed, and
//!   [`evaluator`] is that machine in executable form, over the name tables
//!   of [`table`]. [`adequacy`] shows that the machine computes what the
//!   semantics says, [`scoping`] what evaluation can do to bindings, and
//!   [`pipeline`] puts the stages together.
//!
//! To evaluate a program, set the evaluator to it with `evaluate` and call
//! `step` until it reports that it is done or has failed. Where a step asks
//! for arithmetic, compute the result and hand its bits to the next step.

pub mod token;
pub mod chars;
pub mod text;
pub mod tokeniser;
pub mod ast;
pub mod grammar;
pub mod progress;
pub mod program;
pub mod parser;
pub mod table;
pub mod machine;
pub mod semantics;
pub mod adequacy;
pub mod scoping;
pub mod pipeline;
pub mod evaluator;
