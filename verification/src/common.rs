//! The vocabulary shared by the scanner, the parser and the interpreter.
pub mod ast;
pub mod py_error;
pub mod text;
pub mod token;
