//! Syntax errors.
use vstd::prelude::*;
use vstd::string::StringExecFns;
use crate::text::{dec, usize_to_string};

verus! {

/// A syntax error with the position of the offending token.
#[derive(Debug, Clone, PartialEq)]
pub struct ParserError {
    pub message: String,
    pub line: usize,
    pub column: usize,
}

/// Specification view of a syntax error.
pub struct ParserErrorView {
    pub message: Seq<char>,
    pub line: usize,
    pub column: usize,
}

impl View for ParserError {
    type V = ParserErrorView;

    open spec fn view(&self) -> ParserErrorView {
        ParserErrorView { message: self.message@, line: self.line, column: self.column }
    }
}

/// The user-facing rendering of a syntax error.
pub open spec fn parser_error_text(e: ParserErrorView) -> Seq<char> {
    "Parser error at line "@ + dec(e.line as nat) + ", column "@ + dec(e.column as nat) + ": "@
        + e.message
}

impl ParserError {
    /// Renders the error as `Parser error at line L, column C: message`.
    pub fn to_display_string(&self) -> (r: String)
        ensures
            r@ == parser_error_text(self@),
    {
        let mut s = String::from_str("Parser error at line ");
        s.append(usize_to_string(self.line).as_str());
        s.append(", column ");
        s.append(usize_to_string(self.column).as_str());
        s.append(": ");
        s.append(self.message.as_str());
        s
    }
}

} // verus!
