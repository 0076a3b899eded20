//! Lexical errors.
use vstd::prelude::*;

verus! {

/// A lexical error with the 1-based position where it was detected.
#[derive(Debug, Clone, PartialEq)]
pub struct LexError {
    pub message: String,
    pub line: usize,
    pub column: usize,
}

/// Specification view of a lexical error.
pub struct LexErrorView {
    pub message: Seq<char>,
    pub line: usize,
    pub column: usize,
}

impl View for LexError {
    type V = LexErrorView;

    open spec fn view(&self) -> LexErrorView {
        LexErrorView { message: self.message@, line: self.line, column: self.column }
    }
}

} // verus!
