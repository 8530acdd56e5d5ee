//! Diagnostics: what went wrong, and where in the source.
use crate::common::text::{decimal, push_decimal};
use vstd::prelude::*;
use vstd::string::StringExecFns;

verus! {

/// A diagnostic of the scanner, the parser or the interpreter. `msg` starts
/// with the kind of the error (`SyntaxError`, `TypeError`, ...); `line` and
/// `column` are 1-based.
#[derive(Debug, PartialEq, Eq)]
pub struct PyError {
    pub msg: String,
    pub line: u64,
    pub column: u64,
}

/// The view of a diagnostic.
pub ghost struct PyErrorView {
    pub msg: Seq<char>,
    pub line: u64,
    pub column: u64,
}

impl View for PyError {
    type V = PyErrorView;

    open spec fn view(&self) -> PyErrorView {
        PyErrorView { msg: self.msg@, line: self.line, column: self.column }
    }
}

impl PyErrorView {
    /// The text shown to the user: the message, then the position on a line
    /// of its own.
    pub open spec fn text(self) -> Seq<char> {
        self.msg + "\n    Line "@ + decimal(self.line as nat) + ", Column "@ + decimal(
            self.column as nat,
        )
    }
}

impl Clone for PyError {
    fn clone(&self) -> (r: PyError)
        ensures
            r@ == self@,
    {
        PyError { msg: self.msg.clone(), line: self.line, column: self.column }
    }
}

impl PyError {
    /// A diagnostic with the message `msg` at the given position.
    pub fn at(msg: &str, line: u64, column: u64) -> (e: PyError)
        ensures
            e@ == (PyErrorView { msg: msg@, line, column }),
    {
        PyError { msg: String::from_str(msg), line, column }
    }

    /// The text shown to the user.
    pub fn to_text(&self) -> (s: String)
        ensures
            s@ == self@.text(),
    {
        let mut s = self.msg.clone();
        s.append("\n    Line ");
        push_decimal(&mut s, self.line as u128);
        s.append(", Column ");
        push_decimal(&mut s, self.column as u128);
        s
    }
}

} // verus!
