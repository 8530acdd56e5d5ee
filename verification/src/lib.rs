//! A small, dynamically typed scripting language with significant
//! indentation, in three stages:
//!
//! - [`scanner`] turns source text into tokens, with `Indent` and `Dedent`
//!   tokens for the blocks;
//! - [`parser`] turns tokens into statements, by recursive descent;
//! - [`interpreter`] runs statements as a machine of small steps, against an
//!   [`environment`] of nested scopes.
//!
//! The stages do no input or output. The scanner and the parser return their
//! diagnostics; the machine leaves printing to its host, and with it the
//! arithmetic of floats, which it holds as bits.
//!
//! Every function is verified against a contract over mathematical views of
//! its data. Beyond the contracts, [`precedence`] proves that the parser gives
//! back every arithmetic expression from the tokens that spell it, and
//! [`evaluation`] that the machine computes the value of an expression as it
//! is defined by the shape of the expression.
pub mod common;
pub mod environment;
pub mod evaluation;
pub mod interpreter;
pub mod operators;
pub mod parser;
pub mod precedence;
pub mod scanner;
pub mod value;
